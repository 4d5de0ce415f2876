use lint_core::diagnostics::DeserializationDiagnostic;
use lint_core::options::FilenameCase;
use lint_core::options::FilenameCases;
use lint_core::options::FilenamingConventionOptions;
use lint_core::options::default_strict_case;
use lint_core::options::is_default_filename_cases;
use lint_core::options::is_default_strict_case;
use lint_core::text::TextRange;
use lint_core::value::Value;

fn rg(n: u32) -> TextRange {
    TextRange::new(n, n + 1)
}

fn key(s: &str, n: u32) -> Value {
    Value::new_str(s.to_string(), rg(n))
}

fn object(entries: Vec<(Value, Value)>) -> Value {
    Value::new_object(entries, rg(0))
}

#[test]
fn unknown_key_yields_one_diagnostic_and_other_fields_decode() {
    let value = object(vec![
        (key("strictCaseX", 1), Value::new_bool(false, rg(2))),
        (key("strictCase", 3), Value::new_bool(false, rg(4))),
        (key("filenameCases", 5), Value::new_array(vec![key("kebab-case", 6)], rg(7))),
    ]);
    let mut diagnostics = Vec::new();
    let decoded = FilenamingConventionOptions::deserialize(&value, "options", &mut diagnostics).unwrap();
    assert_eq!(diagnostics.len(), 1);
    match &diagnostics[0] {
        DeserializationDiagnostic::UnknownKey { key, allowed_keys, .. } => {
            assert_eq!(key, "strictCaseX");
            assert_eq!(allowed_keys, &vec!["strictCase".to_string(), "filenameCases".to_string()]);
        },
        other => panic!("expected an unknown-key diagnostic, got {:?}", diag_name(other)),
    }
    assert!(!decoded.strict_case);
    assert_eq!(decoded.filename_cases.0, vec![FilenameCase::Kebab]);
}

fn diag_name(d: &DeserializationDiagnostic) -> &'static str {
    match d {
        DeserializationDiagnostic::UnknownKey { .. } => "unknown key",
        DeserializationDiagnostic::UnknownValue { .. } => "unknown value",
        DeserializationDiagnostic::EmptyArray { .. } => "empty array",
        DeserializationDiagnostic::IncorrectType { .. } => "incorrect type",
    }
}

#[test]
fn empty_filename_cases_rejected_with_dedicated_diagnostic() {
    let value = object(vec![(key("filenameCases", 1), Value::new_array(vec![], rg(2)))]);
    let mut diagnostics = Vec::new();
    let decoded = FilenamingConventionOptions::deserialize(&value, "options", &mut diagnostics).unwrap();
    assert_eq!(diagnostics.len(), 1);
    match &diagnostics[0] {
        DeserializationDiagnostic::EmptyArray { name, .. } => {
            assert_eq!(name, "filenameCases");
        },
        other => panic!("expected an empty-array diagnostic, got {:?}", diag_name(other)),
    }
    // The field falls back to its default rather than disabling the rule.
    assert!(is_default_filename_cases(&decoded.filename_cases));
}

#[test]
fn unknown_case_value_lists_allowed_variants_and_is_skipped() {
    let value = object(vec![(
        key("filenameCases", 1),
        Value::new_array(vec![key("bogus", 2), key("snake_case", 3)], rg(4)),
    )]);
    let mut diagnostics = Vec::new();
    let decoded = FilenamingConventionOptions::deserialize(&value, "options", &mut diagnostics).unwrap();
    assert_eq!(diagnostics.len(), 1);
    match &diagnostics[0] {
        DeserializationDiagnostic::UnknownValue { value, allowed_variants, .. } => {
            assert_eq!(value, "bogus");
            assert_eq!(
                allowed_variants,
                &vec![
                    "camelCase".to_string(),
                    "export".to_string(),
                    "kebab-case".to_string(),
                    "PascalCase".to_string(),
                    "snake_case".to_string(),
                ]
            );
        },
        other => panic!("expected an unknown-value diagnostic, got {:?}", diag_name(other)),
    }
    assert_eq!(decoded.filename_cases.0, vec![FilenameCase::Snake]);
}

#[test]
fn bad_field_leaves_default_and_decoding_continues() {
    let value = object(vec![
        (key("strictCase", 1), Value::new_number(3, rg(2))),
        (key("filenameCases", 3), Value::new_array(vec![key("PascalCase", 4)], rg(5))),
    ]);
    let mut diagnostics = Vec::new();
    let decoded = FilenamingConventionOptions::deserialize(&value, "options", &mut diagnostics).unwrap();
    assert_eq!(diagnostics.len(), 1);
    assert!(matches!(&diagnostics[0], DeserializationDiagnostic::IncorrectType { .. }));
    assert!(decoded.strict_case);
    assert_eq!(decoded.filename_cases.0, vec![FilenameCase::Pascal]);
}

#[test]
fn non_map_options_value_is_rejected() {
    let value = Value::new_bool(true, rg(1));
    let mut diagnostics = Vec::new();
    let decoded = FilenamingConventionOptions::deserialize(&value, "options", &mut diagnostics);
    assert!(decoded.is_none());
    assert_eq!(diagnostics.len(), 1);
}

#[test]
fn duplicate_cases_are_kept_once() {
    let value = object(vec![(
        key("filenameCases", 1),
        Value::new_array(vec![key("export", 2), key("export", 3), key("camelCase", 4)], rg(5)),
    )]);
    let mut diagnostics = Vec::new();
    let decoded = FilenamingConventionOptions::deserialize(&value, "options", &mut diagnostics).unwrap();
    assert!(diagnostics.is_empty());
    assert_eq!(decoded.filename_cases.0, vec![FilenameCase::Export, FilenameCase::Camel]);
}

#[test]
fn from_str_recognises_exactly_the_allowed_variants() {
    assert_eq!(FilenameCase::from_str("camelCase"), Ok(FilenameCase::Camel));
    assert_eq!(FilenameCase::from_str("export"), Ok(FilenameCase::Export));
    assert_eq!(FilenameCase::from_str("kebab-case"), Ok(FilenameCase::Kebab));
    assert_eq!(FilenameCase::from_str("PascalCase"), Ok(FilenameCase::Pascal));
    assert_eq!(FilenameCase::from_str("snake_case"), Ok(FilenameCase::Snake));
    assert_eq!(
        FilenameCase::from_str("camelcase"),
        Err("Value not supported for enum member case")
    );
}

#[test]
fn defaults_match_the_documented_configuration() {
    assert!(default_strict_case());
    assert!(is_default_strict_case(&true));
    assert!(!is_default_strict_case(&false));
    let d = FilenameCases::default();
    assert_eq!(
        d.0,
        vec![FilenameCase::Camel, FilenameCase::Export, FilenameCase::Kebab, FilenameCase::Snake]
    );
    assert!(is_default_filename_cases(&d));
    let o = FilenamingConventionOptions::default();
    assert!(o.strict_case);
}

#[test]
fn all_failing_elements_leave_the_set_empty_and_rejected() {
    let value = object(vec![(
        key("filenameCases", 1),
        Value::new_array(vec![key("bogus", 2)], rg(3)),
    )]);
    let mut diagnostics = Vec::new();
    let decoded = FilenamingConventionOptions::deserialize(&value, "options", &mut diagnostics).unwrap();
    // The bad literal is reported, and the set it left empty is rejected too.
    assert_eq!(diagnostics.len(), 2);
    assert!(matches!(&diagnostics[0], DeserializationDiagnostic::UnknownValue { .. }));
    assert!(matches!(&diagnostics[1], DeserializationDiagnostic::EmptyArray { .. }));
    assert!(is_default_filename_cases(&decoded.filename_cases));
}

#[test]
fn non_string_key_is_reported_and_decoding_continues() {
    let value = object(vec![
        (Value::new_number(7, rg(1)), Value::new_bool(false, rg(2))),
        (key("strictCase", 3), Value::new_bool(false, rg(4))),
    ]);
    let mut diagnostics = Vec::new();
    let decoded = FilenamingConventionOptions::deserialize(&value, "options", &mut diagnostics).unwrap();
    assert_eq!(diagnostics.len(), 1);
    assert!(matches!(&diagnostics[0], DeserializationDiagnostic::IncorrectType { .. }));
    assert!(!decoded.strict_case);
}
