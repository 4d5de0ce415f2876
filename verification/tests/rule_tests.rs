use lint_core::case::Case;
use lint_core::options::FilenameCase;
use lint_core::options::FilenameCases;
use lint_core::options::FilenamingConventionOptions;
use lint_core::rule::FileNamingConventionState;
use lint_core::rule::RuleContext;
use lint_core::rule::UseFilenamingConvention;
use lint_core::semantics::Binding;
use lint_core::semantics::SemanticModel;
use lint_core::text::TextRange;

fn model_with(bindings: Vec<Binding>) -> SemanticModel {
    SemanticModel { bindings, scope_count: 0 }
}

fn empty_model() -> SemanticModel {
    model_with(Vec::new())
}

fn ctx(file_name: &str, options: FilenamingConventionOptions, model: SemanticModel) -> RuleContext {
    RuleContext { file_name: file_name.to_string(), options, model }
}

fn default_ctx(file_name: &str) -> RuleContext {
    ctx(file_name, FilenamingConventionOptions::default(), empty_model())
}

fn cases(list: &[FilenameCase]) -> FilenameCases {
    FilenameCases(list.to_vec())
}

#[test]
fn extension_check_takes_precedence_over_name_case() {
    // "my-file" is valid kebab-case, yet the uppercase extension wins.
    let r = UseFilenamingConvention::run(&default_ctx("my-file.TEST.js"));
    assert!(matches!(r, Some(FileNamingConventionState::Extension)));
}

#[test]
fn extension_check_is_independent_of_name_case() {
    // Even a hopeless name reports the extension first.
    let r = UseFilenamingConvention::run(&default_ctx("No Such Name!.JS"));
    assert!(matches!(r, Some(FileNamingConventionState::Extension)));
}

#[test]
fn leading_dot_filename_resolves_second_segment() {
    // ".filename.js" takes "filename" as the name, which is lowercase.
    let r = UseFilenamingConvention::run(&default_ctx(".filename.js"));
    assert!(r.is_none());
}

#[test]
fn leading_dot_filename_bad_name_reports_filename() {
    let r = UseFilenamingConvention::run(&default_ctx(".Not Valid.js"));
    assert!(matches!(r, Some(FileNamingConventionState::Filename)));
}

#[test]
fn default_options_accept_camel_case() {
    let r = UseFilenamingConvention::run(&default_ctx("myComponent.js"));
    assert!(r.is_none());
}

#[test]
fn strict_case_rejects_consecutive_uppercase() {
    let r = UseFilenamingConvention::run(&default_ctx("agentID.js"));
    assert!(matches!(r, Some(FileNamingConventionState::Filename)));
}

#[test]
fn relaxed_case_accepts_consecutive_uppercase() {
    let options = FilenamingConventionOptions {
        strict_case: false,
        filename_cases: FilenameCases::default(),
    };
    let r = UseFilenamingConvention::run(&ctx("agentID.js", options, empty_model()));
    assert!(r.is_none());
}

#[test]
fn export_mode_accepts_filename_equal_to_export() {
    let options = FilenamingConventionOptions {
        strict_case: true,
        filename_cases: cases(&[FilenameCase::Export]),
    };
    let model = model_with(vec![Binding {
        name: "Button".to_string(),
        range: TextRange::new(0, 6),
        exported: true,
    }]);
    let r = UseFilenamingConvention::run(&ctx("Button.tsx", options, model));
    assert!(r.is_none());
}

#[test]
fn export_mode_without_matching_export_reports_filename() {
    let options = FilenamingConventionOptions {
        strict_case: true,
        filename_cases: cases(&[FilenameCase::Export]),
    };
    let model = model_with(vec![Binding {
        name: "Other".to_string(),
        range: TextRange::new(0, 5),
        exported: true,
    }]);
    let r = UseFilenamingConvention::run(&ctx("Button.tsx", options, model));
    assert!(matches!(r, Some(FileNamingConventionState::Filename)));
}

#[test]
fn export_mode_ignores_unexported_bindings() {
    let options = FilenamingConventionOptions {
        strict_case: true,
        filename_cases: cases(&[FilenameCase::Export]),
    };
    let model = model_with(vec![Binding {
        name: "Button".to_string(),
        range: TextRange::new(0, 6),
        exported: false,
    }]);
    let r = UseFilenamingConvention::run(&ctx("Button.tsx", options, model));
    assert!(matches!(r, Some(FileNamingConventionState::Filename)));
}

#[test]
fn filename_without_name_segment_reports_nothing() {
    assert!(UseFilenamingConvention::run(&default_ctx("")).is_none());
    // "." resolves an empty name, which fits no style and equals no export.
    assert!(matches!(
        UseFilenamingConvention::run(&default_ctx(".")),
        Some(FileNamingConventionState::Filename)
    ));
}

#[test]
fn underscore_trimming_allows_wrapped_names() {
    let r = UseFilenamingConvention::run(&default_ctx("__my_file__.js"));
    assert!(r.is_none());
}

#[test]
fn extension_diagnostic_has_fixed_message() {
    let c = default_ctx("my-file.TEST.js");
    let state = UseFilenamingConvention::run(&c).unwrap();
    let d = UseFilenamingConvention::diagnostic(&c, &state).unwrap();
    assert_eq!(
        d.message,
        "The file extension should be in lowercase without any special characters."
    );
    assert!(d.notes.is_empty());
    assert!(d.range.is_none());
    assert_eq!(d.category, "lint/nursery/useFilenamingConvention");
}

#[test]
fn strict_camel_violation_gets_guidance_note() {
    let c = default_ctx("agentID.js");
    let state = UseFilenamingConvention::run(&c).unwrap();
    let d = UseFilenamingConvention::diagnostic(&c, &state).unwrap();
    assert_eq!(
        d.message,
        "The filename is in camelCase, however, two consecutive uppercase characters are not allowed because `strictCase` is set to `true`."
    );
    assert_eq!(d.notes.len(), 1);
    assert_eq!(
        d.notes[0],
        "If you want to use consecutive uppercase characters in camelCase then consider setting `strictCase` option to `false`."
    );
}

#[test]
fn filename_diagnostic_lists_allowed_cases_and_suggestions() {
    let options = FilenamingConventionOptions {
        strict_case: true,
        filename_cases: cases(&[FilenameCase::Kebab, FilenameCase::Snake]),
    };
    let c = ctx("agentID.js", options, empty_model());
    let state = UseFilenamingConvention::run(&c).unwrap();
    assert!(matches!(state, FileNamingConventionState::Filename));
    let d = UseFilenamingConvention::diagnostic(&c, &state).unwrap();
    assert_eq!(d.message, "The filename should be in kebab-case or snake_case.");
    assert_eq!(d.notes.len(), 1);
    assert_eq!(
        d.notes[0],
        "The filename could be renamed to one of the following names:\nagent-id.js\nagent_id.js"
    );
}

#[test]
fn filename_diagnostic_mentions_export_mode_and_trimming() {
    let options = FilenamingConventionOptions {
        strict_case: true,
        filename_cases: cases(&[FilenameCase::Kebab, FilenameCase::Export]),
    };
    let c = ctx("__agentID__.js", options, empty_model());
    let state = UseFilenamingConvention::run(&c).unwrap();
    let d = UseFilenamingConvention::diagnostic(&c, &state).unwrap();
    assert_eq!(
        d.message,
        "The filename trimmed as `agentID` should be in kebab-case or equal to the name of an export."
    );
    assert_eq!(
        d.notes[0],
        "The filename could be renamed to one of the following names:\n__agent-id__.js"
    );
}

#[test]
fn suggestions_are_deduplicated() {
    // Kebab and snake conversions of a single word coincide.
    let options = FilenamingConventionOptions {
        strict_case: true,
        filename_cases: cases(&[FilenameCase::Kebab, FilenameCase::Snake]),
    };
    let c = ctx("Filex.js", options, empty_model());
    let state = UseFilenamingConvention::run(&c).unwrap();
    let d = UseFilenamingConvention::diagnostic(&c, &state).unwrap();
    assert_eq!(
        d.notes[0],
        "The filename could be renamed to one of the following names:\nfilex.js"
    );
}

#[test]
fn case_identify_matches_expected_styles() {
    let id = |s: &str, strict: bool| Case::identify(&s.chars().collect(), strict);
    assert_eq!(id("filename", true), Case::Lower);
    assert_eq!(id("my-file", true), Case::Kebab);
    assert_eq!(id("my_file", true), Case::Snake);
    assert_eq!(id("myComponent", true), Case::Camel);
    assert_eq!(id("agentID", true), Case::Unknown);
    assert_eq!(id("agentID", false), Case::Camel);
    assert_eq!(id("Button", true), Case::Pascal);
    assert_eq!(id("HTMLParser", false), Case::Pascal);
    assert_eq!(id("HTMLParser", true), Case::Unknown);
    assert_eq!(id("my-file_x", true), Case::Unknown);
    assert_eq!(id("", true), Case::Unknown);
}

#[test]
fn case_convert_rewrites_names() {
    let conv = |c: Case, s: &str| -> String {
        c.convert(&s.chars().collect()).into_iter().collect()
    };
    assert_eq!(conv(Case::Kebab, "agentID"), "agent-id");
    assert_eq!(conv(Case::Snake, "agentID"), "agent_id");
    assert_eq!(conv(Case::Camel, "agentID"), "agentId");
    assert_eq!(conv(Case::Pascal, "agentID"), "AgentId");
    assert_eq!(conv(Case::Kebab, "HTMLParser"), "html-parser");
    assert_eq!(conv(Case::Camel, "my-file"), "myFile");
    assert_eq!(conv(Case::Pascal, "my_file"), "MyFile");
    assert_eq!(conv(Case::Snake, "myComponent"), "my_component");
}

#[test]
fn lower_is_compatible_with_camel_kebab_snake() {
    assert!(Case::Lower.is_compatible_with(Case::Camel));
    assert!(Case::Lower.is_compatible_with(Case::Kebab));
    assert!(Case::Lower.is_compatible_with(Case::Snake));
    assert!(!Case::Lower.is_compatible_with(Case::Pascal));
    assert!(Case::Camel.is_compatible_with(Case::Camel));
    assert!(!Case::Unknown.is_compatible_with(Case::Camel));
}
