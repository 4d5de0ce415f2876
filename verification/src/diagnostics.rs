use vstd::prelude::*;

use crate::text::TextRange;

verus! {

/// The mathematical content of a deserialization diagnostic: the same shape
/// with every string replaced by its character sequence.
pub enum DiagnosticModel {
    UnknownKey { key: Seq<char>, range: TextRange, allowed_keys: Seq<Seq<char>> },
    UnknownValue { value: Seq<char>, range: TextRange, allowed_variants: Seq<Seq<char>> },
    EmptyArray { name: Seq<char>, range: TextRange },
    IncorrectType { expected: Seq<char>, range: TextRange },
}

/// A recoverable fault met while decoding untyped configuration. Decoding
/// never aborts on one of these: it accumulates them and falls back to
/// defaults.
#[derive(Debug, Clone)]
pub enum DeserializationDiagnostic {
    /// A map key that the target record does not recognise, with the
    /// exhaustive list of keys it does.
    UnknownKey { key: String, range: TextRange, allowed_keys: Vec<String> },
    /// A scalar that matches no allowed literal of an enumerated field, with
    /// the exhaustive list of literals it allows.
    UnknownValue { value: String, range: TextRange, allowed_variants: Vec<String> },
    /// A set-valued option that decoded to the empty collection, which would
    /// silently disable what it configures.
    EmptyArray { name: String, range: TextRange },
    /// A value of the wrong shape for the field that holds it.
    IncorrectType { expected: String, range: TextRange },
}

impl View for DeserializationDiagnostic {
    type V = DiagnosticModel;

    open spec fn view(&self) -> DiagnosticModel {
        match self {
            DeserializationDiagnostic::UnknownKey { key, range, allowed_keys } =>
                DiagnosticModel::UnknownKey {
                    key: key@,
                    range: *range,
                    allowed_keys: allowed_keys.deep_view(),
                },
            DeserializationDiagnostic::UnknownValue { value, range, allowed_variants } =>
                DiagnosticModel::UnknownValue {
                    value: value@,
                    range: *range,
                    allowed_variants: allowed_variants.deep_view(),
                },
            DeserializationDiagnostic::EmptyArray { name, range } =>
                DiagnosticModel::EmptyArray { name: name@, range: *range },
            DeserializationDiagnostic::IncorrectType { expected, range } =>
                DiagnosticModel::IncorrectType { expected: expected@, range: *range },
        }
    }
}

/// The models of a list of diagnostics, in order.
pub open spec fn diag_models(s: Seq<DeserializationDiagnostic>) -> Seq<DiagnosticModel> {
    s.map(|i: int, d: DeserializationDiagnostic| d@)
}

/// A rendered rule violation: a message, an optional place in the source,
/// optional remediation notes, and the stable identity of the rule that
/// produced it.
#[derive(Debug)]
pub struct RuleDiagnostic {
    pub category: String,
    pub range: Option<TextRange>,
    pub message: String,
    pub notes: Vec<String>,
}

/// Reported once when a rule's query needs a published service that no
/// visitor of an earlier phase registered; fatal for that rule only.
#[derive(Debug)]
pub struct MissingServicesDiagnostic {
    pub rule_name: String,
    pub missing_services: Vec<String>,
}

} // verus!
