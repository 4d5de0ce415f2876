use vstd::prelude::*;

use crate::diagnostics::MissingServicesDiagnostic;
use crate::semantics::SemanticEventExtractor;
use crate::semantics::SemanticModel;
use crate::semantics::SemanticModelBuilder;
use crate::semantics::WalkEvent;
use crate::semantics::SyntaxNode;
use crate::semantics::apply_events;
use crate::semantics::walk_semantic_events;
use crate::text::TextRange;

verus! {

/// The ordered traversal stages: every document is walked once for the
/// syntax phase, then once for the semantic phase, never interleaved.
#[derive(Debug, Clone, Copy, PartialEq, Eq, Structural)]
pub enum Phases {
    Syntax,
    Semantic,
}

/// The cross-phase store of published artifacts: one slot per service the
/// core knows. A phase's visitors fill it in their `finish` step; later
/// phases only read it.
pub struct ServiceBag {
    pub semantic_model: Option<SemanticModel>,
}

impl ServiceBag {
    pub fn new() -> (r: ServiceBag)
        ensures
            r.semantic_model is None,
    {
        ServiceBag { semantic_model: None }
    }

    /// Publishes the semantic model; the single writer is the model
    /// builder's `finish`.
    pub fn insert_service(&mut self, model: SemanticModel)
        ensures
            final(self).semantic_model == Some(model),
    {
        self.semantic_model = Some(model);
    }

    /// Looks the semantic model up; absent when no builder ran.
    pub fn get_service(&self) -> (r: Option<&SemanticModel>)
        ensures
            match r {
                Some(m) => self.semantic_model == Some(*m),
                None => self.semantic_model is None,
            },
    {
        match &self.semantic_model {
            Some(m) => Some(m),
            None => None,
        }
    }
}

/// The stable identity of a rule, for reporting.
pub struct RuleKey {
    pub rule_name: String,
}

impl RuleKey {
    pub fn rule_name(&self) -> (r: &String)
        ensures
            r == &self.rule_name,
    {
        &self.rule_name
    }
}

/// The whole-model query match: it carries only the root's source range; the
/// model itself is looked up in the service bag.
pub struct SemanticModelEvent(pub TextRange);

impl SemanticModelEvent {
    pub fn text_range(&self) -> (r: TextRange)
        ensures
            r == self.0,
    {
        self.0
    }
}

/// The services a semantic rule consumes: the semantic model of the current
/// document, resolved from the service bag.
#[derive(Debug)]
pub struct SemanticServices {
    pub model: SemanticModel,
}

impl SemanticServices {
    pub fn model(&self) -> (r: &SemanticModel)
        ensures
            r == &self.model,
    {
        &self.model
    }

    /// Resolves the semantic model from the service bag. A missing model is
    /// a wiring fault of this one rule, reported once and fatal for it only.
    pub fn from_services(rule_key: &RuleKey, services: &ServiceBag) -> (r: Result<
        SemanticServices,
        MissingServicesDiagnostic,
    >)
        ensures
            match r {
                Result::Ok(s) => services.semantic_model is Some
                    && s.model.bindings@ == services.semantic_model->0.bindings@
                    && s.model.scope_count == services.semantic_model->0.scope_count,
                Result::Err(d) => services.semantic_model is None
                    && d.rule_name@ == rule_key.rule_name@
                    && d.missing_services.deep_view() == seq!["SemanticModel"@],
            },
    {
        match services.get_service() {
            Some(model) => Result::Ok(SemanticServices { model: model.clone_model() }),
            None => {
                let mut missing: Vec<String> = Vec::new();
                missing.push("SemanticModel".to_owned());
                proof {
                    assert(missing.deep_view() =~~= seq!["SemanticModel"@]);
                }
                Result::Err(MissingServicesDiagnostic {
                    rule_name: rule_key.rule_name.clone(),
                    missing_services: missing,
                })
            },
        }
    }

    /// Whole-model queries resolve during the semantic phase.
    pub fn phase() -> (r: Phases)
        ensures
            r == Phases::Semantic,
    {
        Phases::Semantic
    }

    /// Resolves a whole-model match into the model, cloning the shared
    /// artifact. The model must have been published by the syntax phase:
    /// resolving without it is a wiring fault the caller reports instead.
    pub fn unwrap_match(services: &ServiceBag, _event: &SemanticModelEvent) -> (r: SemanticModel)
        requires
            services.semantic_model is Some,
        ensures
            r.bindings@ == services.semantic_model->0.bindings@,
            r.scope_count == services.semantic_model->0.scope_count,
    {
        match services.get_service() {
            Some(model) => model.clone_model(),
            None => {
                proof {
                    assert(false);
                }
                SemanticModel { bindings: Vec::new(), scope_count: 0 }
            },
        }
    }
}

/// A typed node query that also needs the semantic model: the wrapped value
/// is the concrete node a kind match resolved to.
#[derive(Clone)]
pub struct Semantic<N>(pub N);

impl<N> Semantic<N> {
    /// Node matches that need the model resolve during the semantic phase,
    /// after the model is published.
    pub fn phase() -> (r: Phases)
        ensures
            r == Phases::Semantic,
    {
        Phases::Semantic
    }

    /// The typed node the query matched.
    pub fn into_inner(self) -> (r: N)
        ensures
            r == self.0,
    {
        self.0
    }
}

impl Semantic<SyntaxNode> {
    /// Resolves a node-kind match into the typed query value; node matches
    /// consult no published service.
    pub fn unwrap_match(_services: &ServiceBag, node: &SyntaxNode) -> (r: Semantic<SyntaxNode>)
        ensures
            r.0 == *node,
    {
        Semantic(node.clone_node())
    }
}

/// The matches a walk event fires for whole-model queries: one, carrying the
/// root's range, when the entered node has no parent; none otherwise.
pub open spec fn root_match_events(e: WalkEvent) -> Seq<SemanticModelEvent> {
    match e {
        WalkEvent::Enter(n) => if !n.has_parent {
            seq![SemanticModelEvent(n.range)]
        } else {
            Seq::empty()
        },
        WalkEvent::Leave(_) => Seq::empty(),
    }
}

/// The semantic-phase visitor that fires whole-model queries: exactly one
/// match per document, at the root, never once per node.
pub struct SemanticModelVisitor;

impl SemanticModelVisitor {
    /// Ignores everything but entering the root, where it fires the one
    /// whole-model match of the document.
    pub fn visit(&self, event: &WalkEvent, matches: &mut Vec<SemanticModelEvent>)
        ensures
            final(matches)@ == old(matches)@ + root_match_events(*event),
    {
        let ghost pre = matches@;
        match event {
            WalkEvent::Enter(node) => {
                if !node.has_parent {
                    matches.push(SemanticModelEvent(node.range));
                    proof {
                        assert(matches@ =~= pre + root_match_events(*event));
                    }
                } else {
                    proof {
                        assert(matches@ =~= pre + root_match_events(*event));
                    }
                }
            },
            WalkEvent::Leave(_) => {
                proof {
                    assert(matches@ =~= pre + root_match_events(*event));
                }
            },
        }
    }
}

/// The syntax-phase visitor that builds the semantic model: it feeds every
/// entered node to the accumulator and the extractor, tells the extractor
/// about every exit, and drains all pending semantic events after each step.
pub struct SemanticModelBuilderVisitor {
    pub extractor: SemanticEventExtractor,
    pub builder: SemanticModelBuilder,
}

impl SemanticModelBuilderVisitor {
    pub fn new() -> (r: SemanticModelBuilderVisitor)
        ensures
            r.extractor.pending@.len() == 0,
            r.builder.bindings@ == Seq::<crate::semantics::Binding>::empty(),
            r.builder.scope_count == 0,
    {
        SemanticModelBuilderVisitor {
            extractor: SemanticEventExtractor::new(),
            builder: SemanticModelBuilder::new(),
        }
    }

    /// Handles one walk event and drains every semantic event it produced,
    /// in emission order: a single node can emit several, and draining only
    /// one per step would lose the rest.
    pub fn visit(&mut self, event: &WalkEvent)
        requires
            old(self).extractor.pending@.len() == 0,
        ensures
            final(self).extractor.pending@.len() == 0,
            final(self).builder.bindings@ == apply_events(
                old(self).builder.bindings@,
                walk_semantic_events(*event),
            ),
    {
        let ghost bindings0 = self.builder.bindings@;
        match event {
            WalkEvent::Enter(node) => {
                self.builder.push_node(node);
                self.extractor.enter(node);
            },
            WalkEvent::Leave(node) => {
                self.extractor.leave(node);
            },
        }
        proof {
            assert(self.extractor.pending@ =~= walk_semantic_events(*event));
        }
        loop
            invariant_except_break
                apply_events(self.builder.bindings@, self.extractor.pending@)
                    == apply_events(bindings0, walk_semantic_events(*event)),
            ensures
                self.extractor.pending@.len() == 0,
                self.builder.bindings@ == apply_events(bindings0, walk_semantic_events(*event)),
            decreases self.extractor.pending@.len(),
        {
            match self.extractor.pop() {
                Some(e) => {
                    self.builder.push_event(e);
                },
                None => {
                    break;
                },
            }
        }
    }

    /// Finalises the model and publishes it, exactly once, after the last
    /// event of the syntax phase.
    pub fn finish(self, services: &mut ServiceBag)
        ensures
            final(services).semantic_model is Some,
            final(services).semantic_model->0.bindings@ == self.builder.bindings@,
            final(services).semantic_model->0.scope_count == self.builder.scope_count,
    {
        let model = self.builder.build();
        services.insert_service(model);
    }
}

} // verus!
