use vstd::prelude::*;

use crate::text::TextRange;

verus! {

/// What the core reads of a tree node's kind tag: whether the node opens a
/// lexical scope, and whether it declares one named binding (and exports it).
/// Every other kind is opaque to the semantic extractor.
#[derive(Debug, Clone)]
pub enum NodeKind {
    Scope,
    Declaration { name: String, exported: bool },
    Other,
}

/// An immutable tree node owned by the external tree provider: a kind tag, a
/// source range, and a parent back-reference of which the core reads only
/// whether it is present (the root is the one node without a parent).
#[derive(Debug, Clone)]
pub struct SyntaxNode {
    pub kind: NodeKind,
    pub range: TextRange,
    pub has_parent: bool,
}

/// One step of a depth-first walk: a node is entered before its children's
/// events and left after them.
pub enum WalkEvent {
    Enter(SyntaxNode),
    Leave(SyntaxNode),
}

/// A semantic fact recognised during the walk. An exported binding is
/// identified by the source range of its declaration.
pub enum SemanticEvent {
    ScopeStarted { range: TextRange },
    ScopeEnded { range: TextRange },
    DeclarationFound { name: String, range: TextRange },
    Exported { range: TextRange },
}

/// A named declaration of the model.
#[derive(Debug, Clone)]
pub struct Binding {
    pub name: String,
    pub range: TextRange,
    pub exported: bool,
}

/// The immutable semantic model of one document: its bindings in declaration
/// order, and how many scopes the document opened. Built once by the syntax
/// phase, then only read.
#[derive(Debug)]
pub struct SemanticModel {
    pub bindings: Vec<Binding>,
    pub scope_count: usize,
}

impl SemanticModel {
    /// Every binding of the document, in declaration order.
    pub fn all_bindings(&self) -> (r: &Vec<Binding>)
        ensures
            r == &self.bindings,
    {
        &self.bindings
    }

    /// Whether a binding of this model is exported.
    pub fn is_exported(&self, binding: &Binding) -> (r: bool)
        ensures
            r == binding.exported,
    {
        binding.exported
    }

    /// An equal model that can be read independently: the model is immutable
    /// once built, so every reader sees the same bindings.
    pub fn clone_model(&self) -> (r: SemanticModel)
        ensures
            r.bindings@ == self.bindings@,
            r.scope_count == self.scope_count,
    {
        let mut bindings: Vec<Binding> = Vec::new();
        let mut i: usize = 0;
        while i < self.bindings.len()
            invariant
                i <= self.bindings@.len(),
                bindings@ == self.bindings@.subrange(0, i as int),
            decreases self.bindings@.len() - i,
        {
            let b = &self.bindings[i];
            bindings.push(Binding { name: b.name.clone(), range: b.range, exported: b.exported });
            proof {
                assert(bindings@ =~= self.bindings@.subrange(0, i + 1 as int));
            }
            i = i + 1;
        }
        proof {
            assert(bindings@ =~= self.bindings@);
        }
        SemanticModel { bindings, scope_count: self.scope_count }
    }
}

impl SyntaxNode {
    /// An equal node of the core's own: the tree provider owns its nodes and
    /// the core only copies what it reads of them.
    pub fn clone_node(&self) -> (r: SyntaxNode)
        ensures
            r == *self,
    {
        let kind = match &self.kind {
            NodeKind::Scope => NodeKind::Scope,
            NodeKind::Declaration { name, exported } => NodeKind::Declaration {
                name: name.clone(),
                exported: *exported,
            },
            NodeKind::Other => NodeKind::Other,
        };
        let r = SyntaxNode { kind, range: self.range, has_parent: self.has_parent };
        proof {
            assert(r == *self);
        }
        r
    }
}

/// The semantic events recognised when a node is entered: a scope node opens
/// a scope; a declaration node declares a binding and, when exported, exports
/// it in the same step, so one node can emit several events.
pub open spec fn enter_events(node: SyntaxNode) -> Seq<SemanticEvent> {
    match node.kind {
        NodeKind::Scope => seq![SemanticEvent::ScopeStarted { range: node.range }],
        NodeKind::Declaration { name, exported } => if exported {
            seq![
                SemanticEvent::DeclarationFound { name: name, range: node.range },
                SemanticEvent::Exported { range: node.range },
            ]
        } else {
            seq![SemanticEvent::DeclarationFound { name: name, range: node.range }]
        },
        NodeKind::Other => Seq::empty(),
    }
}

/// The semantic events recognised when a node is left: a scope node closes
/// its scope.
pub open spec fn leave_events(node: SyntaxNode) -> Seq<SemanticEvent> {
    match node.kind {
        NodeKind::Scope => seq![SemanticEvent::ScopeEnded { range: node.range }],
        _ => Seq::empty(),
    }
}

/// The semantic events one walk event gives rise to.
pub open spec fn walk_semantic_events(e: WalkEvent) -> Seq<SemanticEvent> {
    match e {
        WalkEvent::Enter(n) => enter_events(n),
        WalkEvent::Leave(n) => leave_events(n),
    }
}

/// Recognises declarations, exports and scope boundaries as nodes are entered
/// and left, and queues them until the builder drains them in emission order.
pub struct SemanticEventExtractor {
    pub pending: Vec<SemanticEvent>,
}

impl SemanticEventExtractor {
    pub fn new() -> (r: SemanticEventExtractor)
        ensures
            r.pending@ == Seq::<SemanticEvent>::empty(),
    {
        SemanticEventExtractor { pending: Vec::new() }
    }

    /// Queues the events this node's entry gives rise to.
    pub fn enter(&mut self, node: &SyntaxNode)
        ensures
            final(self).pending@ == old(self).pending@ + enter_events(*node),
    {
        let ghost pre = self.pending@;
        match &node.kind {
            NodeKind::Scope => {
                self.pending.push(SemanticEvent::ScopeStarted { range: node.range });
                proof {
                    assert(self.pending@ =~= pre + enter_events(*node));
                }
            },
            NodeKind::Declaration { name, exported } => {
                self.pending.push(SemanticEvent::DeclarationFound {
                    name: name.clone(),
                    range: node.range,
                });
                if *exported {
                    self.pending.push(SemanticEvent::Exported { range: node.range });
                }
                proof {
                    assert(self.pending@ =~= pre + enter_events(*node));
                }
            },
            NodeKind::Other => {
                proof {
                    assert(self.pending@ =~= pre + enter_events(*node));
                }
            },
        }
    }

    /// Queues the events this node's exit gives rise to.
    pub fn leave(&mut self, node: &SyntaxNode)
        ensures
            final(self).pending@ == old(self).pending@ + leave_events(*node),
    {
        let ghost pre = self.pending@;
        match &node.kind {
            NodeKind::Scope => {
                self.pending.push(SemanticEvent::ScopeEnded { range: node.range });
                proof {
                    assert(self.pending@ =~= pre + leave_events(*node));
                }
            },
            _ => {
                proof {
                    assert(self.pending@ =~= pre + leave_events(*node));
                }
            },
        }
    }

    /// Hands out the oldest queued event, if any: draining pops in emission
    /// order.
    pub fn pop(&mut self) -> (r: Option<SemanticEvent>)
        ensures
            old(self).pending@.len() == 0 ==> r is None && final(self).pending@ == old(self).pending@,
            old(self).pending@.len() > 0 ==> r == Some(old(self).pending@[0])
                && final(self).pending@ == old(self).pending@.drop_first(),
    {
        if self.pending.is_empty() {
            None
        } else {
            let e = self.pending.remove(0);
            proof {
                assert(self.pending@ =~= old(self).pending@.drop_first());
            }
            Some(e)
        }
    }
}

/// One semantic event applied to the bindings accumulated so far: a
/// declaration appends an unexported binding; an export marks every binding
/// declared at its range as exported.
pub open spec fn apply_event(bindings: Seq<Binding>, e: SemanticEvent) -> Seq<Binding> {
    match e {
        SemanticEvent::DeclarationFound { name, range } => bindings.push(
            Binding { name: name, range: range, exported: false },
        ),
        SemanticEvent::Exported { range } => bindings.map(
            |i: int, b: Binding|
                if b.range == range {
                    Binding { name: b.name, range: b.range, exported: true }
                } else {
                    b
                },
        ),
        _ => bindings,
    }
}

/// A queue of semantic events applied in order.
pub open spec fn apply_events(bindings: Seq<Binding>, events: Seq<SemanticEvent>) -> Seq<Binding>
    decreases events.len(),
{
    if events.len() == 0 {
        bindings
    } else {
        apply_events(apply_event(bindings, events[0]), events.drop_first())
    }
}

/// Accumulates semantic events into the model of one document.
pub struct SemanticModelBuilder {
    pub bindings: Vec<Binding>,
    pub scope_count: usize,
    pub node_count: usize,
}

impl SemanticModelBuilder {
    pub fn new() -> (r: SemanticModelBuilder)
        ensures
            r.bindings@ == Seq::<Binding>::empty(),
            r.scope_count == 0,
            r.node_count == 0,
    {
        SemanticModelBuilder { bindings: Vec::new(), scope_count: 0, node_count: 0 }
    }

    /// Records one more tree node pushed into the model's arena.
    pub fn push_node(&mut self, _node: &SyntaxNode)
        ensures
            final(self).bindings@ == old(self).bindings@,
            final(self).scope_count == old(self).scope_count,
            final(self).node_count == if old(self).node_count < usize::MAX {
                old(self).node_count + 1
            } else {
                old(self).node_count as int
            },
    {
        if self.node_count < usize::MAX {
            self.node_count = self.node_count + 1;
        }
    }

    /// Applies one semantic event to the accumulated model.
    pub fn push_event(&mut self, e: SemanticEvent)
        ensures
            final(self).bindings@ == apply_event(old(self).bindings@, e),
            final(self).scope_count == if e is ScopeStarted && old(self).scope_count < usize::MAX {
                old(self).scope_count + 1
            } else {
                old(self).scope_count as int
            },
            final(self).node_count == old(self).node_count,
    {
        match e {
            SemanticEvent::DeclarationFound { name, range } => {
                self.bindings.push(Binding { name, range, exported: false });
            },
            SemanticEvent::Exported { range } => {
                let ghost pre = self.bindings@;
                let mut updated: Vec<Binding> = Vec::new();
                let mut i: usize = 0;
                while i < self.bindings.len()
                    invariant
                        pre == self.bindings@,
                        i <= pre.len(),
                        updated@.len() == i,
                        forall|j: int| 0 <= j < i ==> updated@[j] == (
                            if pre[j].range == range {
                                Binding { name: pre[j].name, range: pre[j].range, exported: true }
                            } else {
                                pre[j]
                            }
                        ),
                    decreases pre.len() - i,
                {
                    let b = &self.bindings[i];
                    if b.range == range {
                        updated.push(Binding { name: b.name.clone(), range: b.range, exported: true });
                    } else {
                        updated.push(Binding { name: b.name.clone(), range: b.range, exported: b.exported });
                    }
                    i = i + 1;
                }
                self.bindings = updated;
                proof {
                    assert(self.bindings@ =~= apply_event(pre, e));
                }
            },
            SemanticEvent::ScopeStarted { range: _ } => {
                if self.scope_count < usize::MAX {
                    self.scope_count = self.scope_count + 1;
                }
            },
            SemanticEvent::ScopeEnded { range: _ } => {},
        }
    }

    /// Finalises the accumulator into the immutable model.
    pub fn build(self) -> (r: SemanticModel)
        ensures
            r.bindings@ == self.bindings@,
            r.scope_count == self.scope_count,
    {
        SemanticModel { bindings: self.bindings, scope_count: self.scope_count }
    }
}

} // verus!
