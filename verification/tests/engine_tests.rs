use lint_core::analyzer::Analyzer;
use lint_core::analyzer::AnalyzerVisitor;
use lint_core::diagnostics::MissingServicesDiagnostic;
use lint_core::semantics::NodeKind;
use lint_core::semantics::SemanticEventExtractor;
use lint_core::semantics::SyntaxNode;
use lint_core::semantics::WalkEvent;
use lint_core::services::Phases;
use lint_core::services::RuleKey;
use lint_core::services::SemanticServices;
use lint_core::services::ServiceBag;
use lint_core::text::TextRange;

fn rg(a: u32, b: u32) -> TextRange {
    TextRange::new(a, b)
}

fn node(kind: NodeKind, range: TextRange, has_parent: bool) -> SyntaxNode {
    SyntaxNode { kind, range, has_parent }
}

/// A small document: a root, a scope, and two declarations, one exported.
fn document() -> Vec<WalkEvent> {
    let root = node(NodeKind::Other, rg(0, 100), false);
    let scope = node(NodeKind::Scope, rg(10, 90), true);
    let button = node(
        NodeKind::Declaration { name: "Button".to_string(), exported: true },
        rg(20, 40),
        true,
    );
    let helper = node(
        NodeKind::Declaration { name: "helper".to_string(), exported: false },
        rg(50, 70),
        true,
    );
    vec![
        WalkEvent::Enter(root.clone()),
        WalkEvent::Enter(scope.clone()),
        WalkEvent::Enter(button.clone()),
        WalkEvent::Leave(button),
        WalkEvent::Enter(helper.clone()),
        WalkEvent::Leave(helper),
        WalkEvent::Leave(scope),
        WalkEvent::Leave(root),
    ]
}

#[test]
fn one_traversal_for_any_number_of_whole_model_rules() {
    let mut analyzer = Analyzer::new();
    // Five distinct rules each wire the whole-model query.
    for _ in 0..5 {
        SemanticServices::build_visitor(&mut analyzer);
    }
    // The builder and the signal are each registered at most once.
    assert_eq!(analyzer.syntax_visitors.len(), 1);
    assert_eq!(analyzer.semantic_visitors.len(), 1);
    assert!(matches!(analyzer.syntax_visitors[0], AnalyzerVisitor::SemanticModelBuilder(_)));
    assert!(matches!(analyzer.semantic_visitors[0], AnalyzerVisitor::SemanticModel(_)));
}

#[test]
fn run_phases_builds_model_and_fires_one_root_match() {
    let mut analyzer = Analyzer::new();
    SemanticServices::build_visitor(&mut analyzer);
    SemanticServices::build_visitor(&mut analyzer);
    let events = document();
    let (bag, matches) = analyzer.run_phases(&events);
    let model = bag.semantic_model.as_ref().expect("the builder publishes the model");
    assert_eq!(model.bindings.len(), 2);
    assert_eq!(model.bindings[0].name, "Button");
    assert!(model.bindings[0].exported);
    assert_eq!(model.bindings[1].name, "helper");
    assert!(!model.bindings[1].exported);
    assert_eq!(model.scope_count, 1);
    // Whole-model queries fire exactly once per document, at the root.
    assert_eq!(matches.len(), 1);
    assert_eq!(matches[0].text_range(), rg(0, 100));
}

#[test]
fn run_phases_without_registrants_produces_nothing() {
    let mut analyzer = Analyzer::new();
    let events = document();
    let (bag, matches) = analyzer.run_phases(&events);
    assert!(bag.semantic_model.is_none());
    assert!(matches.is_empty());
}

#[test]
fn from_services_resolves_or_reports_missing_model() {
    let mut analyzer = Analyzer::new();
    SemanticServices::build_visitor(&mut analyzer);
    let events = document();
    let (bag, matches) = analyzer.run_phases(&events);
    let key = RuleKey { rule_name: "useFilenamingConvention".to_string() };
    let services = SemanticServices::from_services(&key, &bag).expect("model was published");
    assert_eq!(services.model().bindings.len(), 2);
    let resolved = SemanticServices::unwrap_match(&bag, &matches[0]);
    assert_eq!(resolved.bindings.len(), 2);

    let empty = ServiceBag::new();
    let err: MissingServicesDiagnostic =
        SemanticServices::from_services(&key, &empty).expect_err("no model was published");
    assert_eq!(err.rule_name, "useFilenamingConvention");
    assert_eq!(err.missing_services, vec!["SemanticModel".to_string()]);
}

#[test]
fn extractor_emits_several_events_per_node_in_order() {
    let mut extractor = SemanticEventExtractor::new();
    let exported = node(
        NodeKind::Declaration { name: "Button".to_string(), exported: true },
        rg(20, 40),
        true,
    );
    extractor.enter(&exported);
    // An exported declaration queues two events: the declaration, then the
    // export; draining pops them in emission order.
    let first = extractor.pop().expect("a declaration event");
    let second = extractor.pop().expect("an export event");
    assert!(extractor.pop().is_none());
    match first {
        lint_core::semantics::SemanticEvent::DeclarationFound { name, .. } => {
            assert_eq!(name, "Button");
        },
        _ => panic!("expected the declaration first"),
    }
    assert!(matches!(second, lint_core::semantics::SemanticEvent::Exported { .. }));
}

#[test]
fn phases_are_ordered_and_named() {
    assert_eq!(SemanticServices::phase(), Phases::Semantic);
    assert_ne!(Phases::Syntax, Phases::Semantic);
}
