use vstd::prelude::*;

use crate::semantics::Binding;
use crate::semantics::WalkEvent;
use crate::semantics::apply_events;
use crate::semantics::walk_semantic_events;
use crate::services::Phases;
use crate::services::SemanticModelBuilderVisitor;
use crate::services::SemanticModelEvent;
use crate::services::SemanticModelVisitor;
use crate::services::ServiceBag;
use crate::services::root_match_events;

verus! {

/// The closed set of visitors the engine drives: the semantic-model builder
/// (syntax phase) and the whole-model root signal (semantic phase).
pub enum AnalyzerVisitor {
    SemanticModelBuilder(SemanticModelBuilderVisitor),
    SemanticModel(SemanticModelVisitor),
}

/// Two visitors of the same logical identity: registration is deduplicated
/// by this, never by instance.
pub open spec fn same_visitor_kind(a: AnalyzerVisitor, b: AnalyzerVisitor) -> bool {
    match (a, b) {
        (AnalyzerVisitor::SemanticModelBuilder(_), AnalyzerVisitor::SemanticModelBuilder(_)) => true,
        (AnalyzerVisitor::SemanticModel(_), AnalyzerVisitor::SemanticModel(_)) => true,
        _ => false,
    }
}

pub open spec fn has_kind(regs: Seq<AnalyzerVisitor>, v: AnalyzerVisitor) -> bool {
    exists|i: int| 0 <= i < regs.len() && same_visitor_kind(#[trigger] regs[i], v)
}

/// What registering a visitor does: nothing when one of its kind is already
/// registered, else it is appended.
pub open spec fn spec_add_visitor(regs: Seq<AnalyzerVisitor>, v: AnalyzerVisitor) -> Seq<AnalyzerVisitor> {
    if has_kind(regs, v) {
        regs
    } else {
        regs.push(v)
    }
}

/// No two registered visitors share a kind.
pub open spec fn distinct_kinds(regs: Seq<AnalyzerVisitor>) -> bool {
    forall|i: int, j: int| 0 <= i < j < regs.len()
        ==> !same_visitor_kind(#[trigger] regs[i], #[trigger] regs[j])
}

pub open spec fn has_builder(regs: Seq<AnalyzerVisitor>) -> bool {
    exists|i: int| 0 <= i < regs.len() && (#[trigger] regs[i]) is SemanticModelBuilder
}

pub open spec fn has_signal(regs: Seq<AnalyzerVisitor>) -> bool {
    exists|i: int| 0 <= i < regs.len() && (#[trigger] regs[i]) is SemanticModel
}

/// Every registered builder is fresh: nothing pending, nothing accumulated.
pub open spec fn fresh_builders(regs: Seq<AnalyzerVisitor>) -> bool {
    forall|i: int| 0 <= i < regs.len() ==> match #[trigger] regs[i] {
        AnalyzerVisitor::SemanticModelBuilder(b) => b.extractor.pending@.len() == 0
            && b.builder.bindings@.len() == 0,
        _ => true,
    }
}

/// The document's bindings after the first `i` walk events.
pub open spec fn document_bindings(events: Seq<WalkEvent>, i: int) -> Seq<Binding>
    decreases i,
{
    if i <= 0 {
        Seq::empty()
    } else {
        apply_events(document_bindings(events, i - 1), walk_semantic_events(events[i - 1]))
    }
}

/// The whole-model matches fired by the first `i` walk events.
pub open spec fn root_matches(events: Seq<WalkEvent>, i: int) -> Seq<SemanticModelEvent>
    decreases i,
{
    if i <= 0 {
        Seq::empty()
    } else {
        root_matches(events, i - 1) + root_match_events(events[i - 1])
    }
}

fn same_kind(a: &AnalyzerVisitor, b: &AnalyzerVisitor) -> (r: bool)
    ensures
        r == same_visitor_kind(*a, *b),
{
    match (a, b) {
        (AnalyzerVisitor::SemanticModelBuilder(_), AnalyzerVisitor::SemanticModelBuilder(_)) => true,
        (AnalyzerVisitor::SemanticModel(_), AnalyzerVisitor::SemanticModel(_)) => true,
        _ => false,
    }
}

/// Appends the visitor unless one of its kind is already registered.
fn add_to(list: &mut Vec<AnalyzerVisitor>, v: AnalyzerVisitor)
    ensures
        final(list)@ == spec_add_visitor(old(list)@, v),
{
    let mut i: usize = 0;
    while i < list.len()
        invariant
            list@ == old(list)@,
            i <= list@.len(),
            forall|j: int| 0 <= j < i ==> !same_visitor_kind(#[trigger] list@[j], v),
        decreases list@.len() - i,
    {
        if same_kind(&list[i], &v) {
            proof {
                assert(has_kind(list@, v));
            }
            return;
        }
        i = i + 1;
    }
    proof {
        assert(!has_kind(list@, v));
    }
    list.push(v);
}

/// The per-document analysis driver: an explicit registry of visitors per
/// phase, filled at wiring time, and one depth-first traversal per phase
/// that has registrants.
pub struct Analyzer {
    pub syntax_visitors: Vec<AnalyzerVisitor>,
    pub semantic_visitors: Vec<AnalyzerVisitor>,
}

impl Analyzer {
    pub fn new() -> (r: Analyzer)
        ensures
            r.syntax_visitors@ == Seq::<AnalyzerVisitor>::empty(),
            r.semantic_visitors@ == Seq::<AnalyzerVisitor>::empty(),
    {
        Analyzer { syntax_visitors: Vec::new(), semantic_visitors: Vec::new() }
    }

    /// Registers a visitor for a phase. Registration is idempotent per
    /// visitor kind: however many rules request the same visitor, it is
    /// held, and therefore run, at most once per phase.
    pub fn add_visitor(&mut self, phase: Phases, v: AnalyzerVisitor)
        ensures
            phase == Phases::Syntax ==> final(self).syntax_visitors@
                == spec_add_visitor(old(self).syntax_visitors@, v)
                && final(self).semantic_visitors@ == old(self).semantic_visitors@,
            phase == Phases::Semantic ==> final(self).semantic_visitors@
                == spec_add_visitor(old(self).semantic_visitors@, v)
                && final(self).syntax_visitors@ == old(self).syntax_visitors@,
    {
        match phase {
            Phases::Syntax => add_to(&mut self.syntax_visitors, v),
            Phases::Semantic => add_to(&mut self.semantic_visitors, v),
        }
    }
}

/// Only builders stand in the list, every one with nothing pending and with
/// exactly the bindings of the first `i` walk events.
pub open spec fn syntax_state(regs: Seq<AnalyzerVisitor>, events: Seq<WalkEvent>, i: int) -> bool {
    forall|idx: int| 0 <= idx < regs.len() ==> match #[trigger] regs[idx] {
        AnalyzerVisitor::SemanticModelBuilder(b) => b.extractor.pending@.len() == 0
            && b.builder.bindings@ == document_bindings(events, i),
        AnalyzerVisitor::SemanticModel(_) => false,
    }
}

/// No builder stands in the list.
pub open spec fn no_builder(regs: Seq<AnalyzerVisitor>) -> bool {
    forall|idx: int| 0 <= idx < regs.len() ==> !((#[trigger] regs[idx]) is SemanticModelBuilder)
}

impl Analyzer {
    /// Drives the analysis of one document: one depth-first traversal per
    /// phase that has registrants, syntax strictly before semantic, never
    /// interleaved. Every event of a phase reaches every visitor of that
    /// phase in registration order; after a phase's last event each of its
    /// visitors is finished exactly once, in registration order, against the
    /// service bag, and discarded before the next phase begins. Returns the
    /// bag and the whole-model matches fired during the semantic phase.
    pub fn run_phases(&mut self, events: &Vec<WalkEvent>) -> (r: (ServiceBag, Vec<SemanticModelEvent>))
        requires
            fresh_builders(old(self).syntax_visitors@),
            !has_signal(old(self).syntax_visitors@),
            no_builder(old(self).semantic_visitors@),
            distinct_kinds(old(self).semantic_visitors@),
        ensures
            has_builder(old(self).syntax_visitors@) ==> r.0.semantic_model is Some
                && r.0.semantic_model->0.bindings@ == document_bindings(events@, events@.len() as int),
            !has_builder(old(self).syntax_visitors@) ==> r.0.semantic_model is None,
            has_signal(old(self).semantic_visitors@) ==> r.1@ == root_matches(events@, events@.len() as int),
            !has_signal(old(self).semantic_visitors@) ==> r.1@.len() == 0,
    {
        let ghost syn0 = self.syntax_visitors@;
        let ghost sem0 = self.semantic_visitors@;
        let mut bag = ServiceBag::new();
        let mut matches: Vec<SemanticModelEvent> = Vec::new();

        // Syntax phase.
        if self.syntax_visitors.len() > 0 {
            proof {
                assert forall|idx: int| 0 <= idx < syn0.len() implies match #[trigger] syn0[idx] {
                    AnalyzerVisitor::SemanticModelBuilder(b) => b.extractor.pending@.len() == 0
                        && b.builder.bindings@ == document_bindings(events@, 0),
                    AnalyzerVisitor::SemanticModel(_) => false,
                } by {
                    if syn0[idx] is SemanticModel {
                        assert(has_signal(syn0));
                    }
                    assert(document_bindings(events@, 0) =~= Seq::<Binding>::empty());
                }
            }
            let mut e: usize = 0;
            while e < events.len()
                invariant
                    e <= events@.len(),
                    self.semantic_visitors@ == sem0,
                    matches@.len() == 0,
                    bag.semantic_model is None,
                    self.syntax_visitors@.len() == syn0.len(),
                    syntax_state(self.syntax_visitors@, events@, e as int),
                    has_builder(self.syntax_visitors@) == has_builder(syn0),
                decreases events@.len() - e,
            {
                let ev = &events[e];
                let ghost orig = self.syntax_visitors@;
                let mut processed: Vec<AnalyzerVisitor> = Vec::new();
                proof {
                    assert(self.syntax_visitors@ =~= orig.skip(0));
                }
                while self.syntax_visitors.len() > 0
                    invariant
                        self.semantic_visitors@ == sem0,
                        matches@.len() == 0,
                        bag.semantic_model is None,
                        processed@.len() + self.syntax_visitors@.len() == orig.len(),
                        self.syntax_visitors@ == orig.skip(processed@.len() as int),
                        e < events@.len(),
                        *ev == events@[e as int],
                        syntax_state(orig, events@, e as int),
                        syntax_state(processed@, events@, e + 1),
                        forall|idx: int| 0 <= idx < processed@.len() ==> same_visitor_kind(
                            #[trigger] processed@[idx],
                            orig[idx],
                        ),
                    decreases self.syntax_visitors@.len(),
                {
                    let ghost done = processed@.len() as int;
                    let v = self.syntax_visitors.remove(0);
                    proof {
                        assert(orig.skip(done)[0] == orig[done]);
                        assert(v == orig[done]);
                        assert(self.syntax_visitors@ =~= orig.skip(done + 1));
                    }
                    match v {
                        AnalyzerVisitor::SemanticModelBuilder(mut b) => {
                            b.visit(ev);
                            proof {
                                assert(document_bindings(events@, e + 1) == apply_events(
                                    document_bindings(events@, e as int),
                                    walk_semantic_events(events@[e as int]),
                                ));
                            }
                            processed.push(AnalyzerVisitor::SemanticModelBuilder(b));
                        },
                        AnalyzerVisitor::SemanticModel(s) => {
                            proof {
                                assert(false);
                            }
                            processed.push(AnalyzerVisitor::SemanticModel(s));
                        },
                    }
                }
                proof {
                    if has_builder(orig) {
                        let i = choose|i: int| 0 <= i < orig.len() && orig[i] is SemanticModelBuilder;
                        assert(same_visitor_kind(processed@[i], orig[i]));
                        assert(has_builder(processed@));
                    }
                    if has_builder(processed@) {
                        let i = choose|i: int| 0 <= i < processed@.len()
                            && processed@[i] is SemanticModelBuilder;
                        assert(same_visitor_kind(processed@[i], orig[i]));
                        assert(has_builder(orig));
                    }
                }
                self.syntax_visitors = processed;
                e = e + 1;
            }
            // Finish each visitor exactly once, in registration order, then
            // discard it: the builder publishes the model here.
            let ghost total = events@.len() as int;
            let ghost hadb = has_builder(self.syntax_visitors@);
            while self.syntax_visitors.len() > 0
                invariant
                    self.semantic_visitors@ == sem0,
                    matches@.len() == 0,
                    syntax_state(self.syntax_visitors@, events@, total),
                    bag.semantic_model is Some ==> bag.semantic_model->0.bindings@
                        == document_bindings(events@, total),
                    (bag.semantic_model is Some || has_builder(self.syntax_visitors@)) == hadb,
                decreases self.syntax_visitors@.len(),
            {
                let ghost rest = self.syntax_visitors@;
                let v = self.syntax_visitors.remove(0);
                proof {
                    assert(v == rest[0]);
                    assert(self.syntax_visitors@ =~= rest.skip(1));
                    assert(forall|idx: int| 0 <= idx < self.syntax_visitors@.len()
                        ==> self.syntax_visitors@[idx] == rest[idx + 1]);
                }
                match v {
                    AnalyzerVisitor::SemanticModelBuilder(b) => {
                        b.finish(&mut bag);
                    },
                    AnalyzerVisitor::SemanticModel(_) => {
                        proof {
                            assert(false);
                        }
                    },
                }
                proof {
                    if has_builder(self.syntax_visitors@) {
                        let i = choose|i: int| 0 <= i < self.syntax_visitors@.len()
                            && self.syntax_visitors@[i] is SemanticModelBuilder;
                        assert(rest[i + 1] is SemanticModelBuilder);
                        assert(has_builder(rest));
                    }
                }
            }
            proof {
                if hadb {
                    assert(bag.semantic_model is Some);
                }
            }
        } else {
            proof {
                assert(!has_builder(syn0));
            }
        }

        // Semantic phase: the earlier phase's visitors are gone; only the
        // bag they published carries over.
        if self.semantic_visitors.len() > 0 {
            let ghost published = bag.semantic_model;
            let mut e: usize = 0;
            while e < events.len()
                invariant
                    e <= events@.len(),
                    bag.semantic_model == published,
                    self.semantic_visitors@.len() == sem0.len(),
                    no_builder(self.semantic_visitors@),
                    distinct_kinds(self.semantic_visitors@),
                    has_signal(self.semantic_visitors@) == has_signal(sem0),
                    has_signal(sem0) ==> matches@ == root_matches(events@, e as int),
                    !has_signal(sem0) ==> matches@.len() == 0,
                decreases events@.len() - e,
            {
                let ev = &events[e];
                let ghost orig = self.semantic_visitors@;
                let ghost matches_pre = matches@;
                let mut processed: Vec<AnalyzerVisitor> = Vec::new();
                proof {
                    assert(self.semantic_visitors@ =~= orig.skip(0));
                }
                while self.semantic_visitors.len() > 0
                    invariant
                        processed@.len() + self.semantic_visitors@.len() == orig.len(),
                        self.semantic_visitors@ == orig.skip(processed@.len() as int),
                        e < events@.len(),
                        *ev == events@[e as int],
                        bag.semantic_model == published,
                        no_builder(orig),
                        distinct_kinds(orig),
                        forall|idx: int| 0 <= idx < processed@.len() ==> same_visitor_kind(
                            #[trigger] processed@[idx],
                            orig[idx],
                        ),
                        has_signal(processed@) ==> has_signal(orig),
                        has_signal(orig) && has_signal(processed@)
                            ==> matches@ == matches_pre + root_match_events(events@[e as int]),
                        !has_signal(processed@) ==> matches@ == matches_pre,
                    decreases self.semantic_visitors@.len(),
                {
                    let ghost done = processed@.len() as int;
                    let v = self.semantic_visitors.remove(0);
                    proof {
                        assert(orig.skip(done)[0] == orig[done]);
                        assert(v == orig[done]);
                        assert(self.semantic_visitors@ =~= orig.skip(done + 1));
                    }
                    match v {
                        AnalyzerVisitor::SemanticModelBuilder(b) => {
                            proof {
                                assert(false);
                            }
                            processed.push(AnalyzerVisitor::SemanticModelBuilder(b));
                        },
                        AnalyzerVisitor::SemanticModel(s) => {
                            proof {
                                if has_signal(processed@) {
                                    let i = choose|i: int| 0 <= i < processed@.len()
                                        && processed@[i] is SemanticModel;
                                    assert(same_visitor_kind(processed@[i], orig[i]));
                                    assert(same_visitor_kind(orig[i], orig[done]));
                                }
                                assert(!has_signal(processed@));
                                assert(has_signal(orig));
                            }
                            s.visit(ev, &mut matches);
                            processed.push(AnalyzerVisitor::SemanticModel(s));
                            proof {
                                assert(processed@.last() is SemanticModel);
                                assert(has_signal(processed@));
                            }
                        },
                    }
                }
                proof {
                    if has_signal(orig) {
                        let i = choose|i: int| 0 <= i < orig.len() && orig[i] is SemanticModel;
                        assert(same_visitor_kind(processed@[i], orig[i]));
                        assert(has_signal(processed@));
                        assert(matches@ =~= root_matches(events@, e + 1));
                    }
                    if has_signal(processed@) {
                        let i = choose|i: int| 0 <= i < processed@.len()
                            && processed@[i] is SemanticModel;
                        assert(same_visitor_kind(processed@[i], orig[i]));
                        assert(has_signal(orig));
                    }
                    assert forall|idx: int| 0 <= idx < processed@.len() implies !(
                        (#[trigger] processed@[idx]) is SemanticModelBuilder) by {
                        assert(same_visitor_kind(processed@[idx], orig[idx]));
                    }
                    assert forall|i: int, j: int| 0 <= i < j < processed@.len() implies
                        !same_visitor_kind(#[trigger] processed@[i], #[trigger] processed@[j]) by {
                        assert(same_visitor_kind(processed@[i], orig[i]));
                        assert(same_visitor_kind(processed@[j], orig[j]));
                        assert(!same_visitor_kind(orig[i], orig[j]));
                    }
                }
                self.semantic_visitors = processed;
                e = e + 1;
            }
            // Finish the phase's visitors in registration order; the root
            // signal publishes nothing, so the bag stays as the syntax phase
            // left it.
            while self.semantic_visitors.len() > 0
                invariant
                    bag.semantic_model == published,
                    no_builder(self.semantic_visitors@),
                    has_signal(sem0) ==> matches@ == root_matches(events@, events@.len() as int),
                    !has_signal(sem0) ==> matches@.len() == 0,
                decreases self.semantic_visitors@.len(),
            {
                let ghost rest = self.semantic_visitors@;
                let v = self.semantic_visitors.remove(0);
                proof {
                    assert(v == rest[0]);
                    assert(self.semantic_visitors@ =~= rest.skip(1));
                }
                match v {
                    AnalyzerVisitor::SemanticModelBuilder(b) => {
                        proof {
                            assert(false);
                        }
                        b.finish(&mut bag);
                    },
                    AnalyzerVisitor::SemanticModel(_) => {},
                }
            }
        } else {
            proof {
                assert(!has_signal(sem0));
            }
        }
        (bag, matches)
    }
}

impl crate::services::SemanticServices {
    /// Wires the whole-model query into the engine: the model builder in the
    /// syntax phase and the root signal in the semantic phase. Registration
    /// is deduplicated by visitor kind, so wiring any number of rules this
    /// way registers each visitor, and pays each traversal cost, once.
    pub fn build_visitor(analyzer: &mut Analyzer)
        ensures
            has_builder(final(analyzer).syntax_visitors@),
            has_signal(final(analyzer).semantic_visitors@),
            has_builder(old(analyzer).syntax_visitors@) ==> final(analyzer).syntax_visitors@
                == old(analyzer).syntax_visitors@,
            has_signal(old(analyzer).semantic_visitors@) ==> final(analyzer).semantic_visitors@
                == old(analyzer).semantic_visitors@,
            fresh_builders(old(analyzer).syntax_visitors@) ==> fresh_builders(final(analyzer).syntax_visitors@),
            !has_signal(old(analyzer).syntax_visitors@) ==> !has_signal(final(analyzer).syntax_visitors@),
            no_builder(old(analyzer).semantic_visitors@) ==> no_builder(final(analyzer).semantic_visitors@),
            distinct_kinds(old(analyzer).semantic_visitors@) ==> distinct_kinds(final(analyzer).semantic_visitors@),
    {
        let ghost syn0 = analyzer.syntax_visitors@;
        let ghost sem0 = analyzer.semantic_visitors@;
        let builder = AnalyzerVisitor::SemanticModelBuilder(SemanticModelBuilderVisitor::new());
        analyzer.add_visitor(Phases::Syntax, builder);
        proof {
            if has_builder(syn0) {
                let i = choose|i: int| 0 <= i < syn0.len() && syn0[i] is SemanticModelBuilder;
                assert(has_kind(syn0, builder));
            } else {
                assert(!has_kind(syn0, builder)) by {
                    if has_kind(syn0, builder) {
                        let i = choose|i: int| 0 <= i < syn0.len()
                            && same_visitor_kind(syn0[i], builder);
                        assert(syn0[i] is SemanticModelBuilder);
                    }
                }
                assert(analyzer.syntax_visitors@ == syn0.push(builder));
                assert(analyzer.syntax_visitors@[syn0.len() as int] is SemanticModelBuilder);
                assert(has_builder(analyzer.syntax_visitors@));
            }
        }
        let signal = AnalyzerVisitor::SemanticModel(SemanticModelVisitor);
        analyzer.add_visitor(Phases::Semantic, signal);
        proof {
            if has_signal(sem0) {
                let i = choose|i: int| 0 <= i < sem0.len() && sem0[i] is SemanticModel;
                assert(has_kind(sem0, signal));
            }
            if !has_signal(sem0) {
                assert(!has_kind(sem0, signal)) by {
                    if has_kind(sem0, signal) {
                        let i = choose|i: int| 0 <= i < sem0.len()
                            && same_visitor_kind(sem0[i], signal);
                        assert(sem0[i] is SemanticModel);
                    }
                }
                assert(analyzer.semantic_visitors@ == sem0.push(signal));
                assert(analyzer.semantic_visitors@[sem0.len() as int] is SemanticModel);
                assert(has_signal(analyzer.semantic_visitors@));
            }
            if no_builder(sem0) {
                assert forall|idx: int| 0 <= idx < analyzer.semantic_visitors@.len() implies !(
                    (#[trigger] analyzer.semantic_visitors@[idx]) is SemanticModelBuilder) by {
                    if idx < sem0.len() {
                        assert(analyzer.semantic_visitors@[idx] == sem0[idx]);
                    }
                }
            }
            if distinct_kinds(sem0) {
                lemma_add_visitor_keeps_distinct(sem0, signal);
            }
        }
    }
}

impl<N> crate::services::Semantic<N> {
    /// Wires a node query that needs the model: the model builder joins the
    /// syntax phase, deduplicated by kind like every registration. The node
    /// dispatch itself is the tree framework's own visitor, outside this
    /// core, so only the builder is registered here.
    pub fn build_visitor(analyzer: &mut Analyzer)
        ensures
            has_builder(final(analyzer).syntax_visitors@),
            has_builder(old(analyzer).syntax_visitors@) ==> final(analyzer).syntax_visitors@
                == old(analyzer).syntax_visitors@,
            final(analyzer).semantic_visitors@ == old(analyzer).semantic_visitors@,
            fresh_builders(old(analyzer).syntax_visitors@) ==> fresh_builders(final(analyzer).syntax_visitors@),
            !has_signal(old(analyzer).syntax_visitors@) ==> !has_signal(final(analyzer).syntax_visitors@),
    {
        let ghost syn0 = analyzer.syntax_visitors@;
        let builder = AnalyzerVisitor::SemanticModelBuilder(SemanticModelBuilderVisitor::new());
        analyzer.add_visitor(Phases::Syntax, builder);
        proof {
            if has_builder(syn0) {
                let i = choose|i: int| 0 <= i < syn0.len() && syn0[i] is SemanticModelBuilder;
                assert(has_kind(syn0, builder));
            } else {
                assert(!has_kind(syn0, builder)) by {
                    if has_kind(syn0, builder) {
                        let i = choose|i: int| 0 <= i < syn0.len()
                            && same_visitor_kind(syn0[i], builder);
                        assert(syn0[i] is SemanticModelBuilder);
                    }
                }
                assert(analyzer.syntax_visitors@ == syn0.push(builder));
                assert(analyzer.syntax_visitors@[syn0.len() as int] is SemanticModelBuilder);
                assert(has_builder(analyzer.syntax_visitors@));
            }
        }
    }
}

/// LAW (one traversal, one extraction): registering a second visitor of a
/// kind already registered leaves the registry exactly as it was, so any
/// number of distinct rules that request the semantic model register its
/// builder — and hence run it — at most once per document.
pub proof fn lemma_registration_idempotent(
    regs: Seq<AnalyzerVisitor>,
    v1: AnalyzerVisitor,
    v2: AnalyzerVisitor,
)
    requires
        same_visitor_kind(v1, v2),
    ensures
        spec_add_visitor(spec_add_visitor(regs, v1), v2) == spec_add_visitor(regs, v1),
{
    if has_kind(regs, v1) {
        let i = choose|i: int| 0 <= i < regs.len() && same_visitor_kind(regs[i], v1);
        assert(same_visitor_kind(regs[i], v2));
        assert(has_kind(regs, v2));
    } else {
        let r2 = regs.push(v1);
        assert(r2[regs.len() as int] == v1);
        assert(has_kind(r2, v2));
    }
}

/// LAW (registry well-formedness): registration keeps visitor kinds unique,
/// so a phase never holds two visitors of one kind, whatever the order and
/// number of registrations.
pub proof fn lemma_add_visitor_keeps_distinct(regs: Seq<AnalyzerVisitor>, v: AnalyzerVisitor)
    requires
        distinct_kinds(regs),
    ensures
        distinct_kinds(spec_add_visitor(regs, v)),
{
    if !has_kind(regs, v) {
        let r2 = regs.push(v);
        assert forall|i: int, j: int| 0 <= i < j < r2.len() implies !same_visitor_kind(
            r2[i],
            r2[j],
        ) by {
            if j == regs.len() {
                assert(r2[i] == regs[i]);
                assert(r2[j] == v);
                if same_visitor_kind(regs[i], v) {
                    assert(has_kind(regs, v));
                }
            } else {
                assert(r2[i] == regs[i]);
                assert(r2[j] == regs[j]);
            }
        }
    }
}

} // verus!
