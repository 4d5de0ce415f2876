use vstd::prelude::*;

use crate::case::Case;
use crate::diagnostics::DeserializationDiagnostic;
use crate::diagnostics::DiagnosticModel;
use crate::diagnostics::diag_models;
use crate::text::TextRange;
use crate::text::str_eq;
use crate::value::Value;
use crate::value::ValueData;

verus! {

broadcast use vstd::string::group_string_axioms;

/// An allowed convention for a filename: one of four naming styles, or
/// `Export`, which accepts a filename equal to the name of an export.
#[derive(Debug, Clone, Copy, Hash, PartialEq, Eq, Structural)]
pub enum FilenameCase {
    Camel,
    Export,
    Kebab,
    Pascal,
    Snake,
}

/// The configuration literal that names each allowed case.
pub open spec fn filename_case_of_chars(s: Seq<char>) -> Option<FilenameCase> {
    if s == "camelCase"@ {
        Some(FilenameCase::Camel)
    } else if s == "export"@ {
        Some(FilenameCase::Export)
    } else if s == "kebab-case"@ {
        Some(FilenameCase::Kebab)
    } else if s == "PascalCase"@ {
        Some(FilenameCase::Pascal)
    } else if s == "snake_case"@ {
        Some(FilenameCase::Snake)
    } else {
        None
    }
}

/// The exhaustive list of literals a case field accepts.
pub open spec fn allowed_variant_names() -> Seq<Seq<char>> {
    seq!["camelCase"@, "export"@, "kebab-case"@, "PascalCase"@, "snake_case"@]
}

/// The exhaustive list of keys the options record accepts.
pub open spec fn allowed_key_names() -> Seq<Seq<char>> {
    seq!["strictCase"@, "filenameCases"@]
}

/// The style a configured case enforces; `Export` names no style.
pub open spec fn fc_to_case(c: FilenameCase) -> Case {
    match c {
        FilenameCase::Camel => Case::Camel,
        FilenameCase::Kebab => Case::Kebab,
        FilenameCase::Pascal => Case::Pascal,
        FilenameCase::Snake => Case::Snake,
        FilenameCase::Export => Case::Unknown,
    }
}

impl FilenameCase {
    /// The literals a case field accepts, in the order diagnostics list them.
    pub fn allowed_variants() -> (r: Vec<String>)
        ensures
            r.deep_view() == allowed_variant_names(),
    {
        let mut r: Vec<String> = Vec::new();
        r.push("camelCase".to_owned());
        r.push("export".to_owned());
        r.push("kebab-case".to_owned());
        r.push("PascalCase".to_owned());
        r.push("snake_case".to_owned());
        proof {
            assert(r.deep_view() =~~= allowed_variant_names());
        }
        r
    }

    /// Parses a configuration literal into an allowed case.
    pub fn from_str(s: &str) -> (r: Result<FilenameCase, &'static str>)
        ensures
            match r {
                Result::Ok(c) => filename_case_of_chars(s@) == Some(c),
                Result::Err(e) => filename_case_of_chars(s@) is None
                    && e@ == "Value not supported for enum member case"@,
            },
    {
        if str_eq(s, "camelCase") {
            Result::Ok(FilenameCase::Camel)
        } else if str_eq(s, "export") {
            Result::Ok(FilenameCase::Export)
        } else if str_eq(s, "kebab-case") {
            Result::Ok(FilenameCase::Kebab)
        } else if str_eq(s, "PascalCase") {
            Result::Ok(FilenameCase::Pascal)
        } else if str_eq(s, "snake_case") {
            Result::Ok(FilenameCase::Snake)
        } else {
            Result::Err("Value not supported for enum member case")
        }
    }

    /// Decodes one allowed case from an untyped value; a failure appends a
    /// diagnostic and yields nothing instead of aborting the caller.
    pub fn deserialize(value: &Value, _name: &str, diagnostics: &mut Vec<DeserializationDiagnostic>) -> (r: Option<FilenameCase>)
        ensures
            r == spec_case_deser(*value),
            diag_models(final(diagnostics)@) == diag_models(old(diagnostics)@)
                + spec_case_deser_diags(*value),
    {
        let ghost pre = diag_models(diagnostics@);
        match &value.data {
            ValueData::Str(s) => {
                match Self::from_str(s.as_str()) {
                    Result::Ok(c) => {
                        proof {
                            assert(diag_models(diagnostics@) =~= pre + spec_case_deser_diags(*value));
                        }
                        Some(c)
                    },
                    Result::Err(_) => {
                        let d = DeserializationDiagnostic::UnknownValue {
                            value: s.clone(),
                            range: value.range,
                            allowed_variants: Self::allowed_variants(),
                        };
                        diagnostics.push(d);
                        proof {
                            assert(diag_models(diagnostics@) =~= pre + spec_case_deser_diags(*value));
                        }
                        None
                    },
                }
            },
            _ => {
                let d = DeserializationDiagnostic::IncorrectType {
                    expected: "string".to_owned(),
                    range: value.range,
                };
                diagnostics.push(d);
                proof {
                    assert(diag_models(diagnostics@) =~= pre + spec_case_deser_diags(*value));
                }
                None
            },
        }
    }
}

/// What decoding one allowed case yields.
pub open spec fn spec_case_deser(v: Value) -> Option<FilenameCase> {
    match v.data {
        ValueData::Str(s) => filename_case_of_chars(s@),
        _ => None,
    }
}

/// The diagnostics decoding one allowed case appends.
pub open spec fn spec_case_deser_diags(v: Value) -> Seq<DiagnosticModel> {
    match v.data {
        ValueData::Str(s) => match filename_case_of_chars(s@) {
            Some(_) => Seq::empty(),
            None => seq![
                DiagnosticModel::UnknownValue {
                    value: s@,
                    range: v.range,
                    allowed_variants: allowed_variant_names(),
                },
            ],
        },
        _ => seq![DiagnosticModel::IncorrectType { expected: "string"@, range: v.range }],
    }
}

/// What decoding a boolean field yields.
pub open spec fn spec_bool_deser(v: Value) -> Option<bool> {
    match v.data {
        ValueData::Bool(b) => Some(b),
        _ => None,
    }
}

/// The diagnostics decoding a boolean field appends.
pub open spec fn spec_bool_deser_diags(v: Value) -> Seq<DiagnosticModel> {
    match v.data {
        ValueData::Bool(_) => Seq::empty(),
        _ => seq![DiagnosticModel::IncorrectType { expected: "boolean"@, range: v.range }],
    }
}

/// Decodes a boolean from an untyped value; anything else appends a
/// diagnostic and yields nothing.
pub fn deserialize_bool(value: &Value, diagnostics: &mut Vec<DeserializationDiagnostic>) -> (r: Option<bool>)
    ensures
        r == spec_bool_deser(*value),
        diag_models(final(diagnostics)@) == diag_models(old(diagnostics)@)
            + spec_bool_deser_diags(*value),
{
    let ghost pre = diag_models(diagnostics@);
    match &value.data {
        ValueData::Bool(b) => {
            proof {
                assert(diag_models(diagnostics@) =~= pre + spec_bool_deser_diags(*value));
            }
            Some(*b)
        },
        _ => {
            diagnostics.push(DeserializationDiagnostic::IncorrectType {
                expected: "boolean".to_owned(),
                range: value.range,
            });
            proof {
                assert(diag_models(diagnostics@) =~= pre + spec_bool_deser_diags(*value));
            }
            None
        },
    }
}

/// The set of allowed cases a `filenameCases` array decodes to: each element
/// decoded in order, failures skipped, duplicates kept once.
pub open spec fn spec_cases_scan(items: Seq<Value>, i: int, acc: Seq<FilenameCase>) -> Seq<FilenameCase>
    decreases items.len() - i,
{
    if i < 0 || i >= items.len() {
        acc
    } else {
        match spec_case_deser(items[i]) {
            Some(c) => if acc.contains(c) {
                spec_cases_scan(items, i + 1, acc)
            } else {
                spec_cases_scan(items, i + 1, acc.push(c))
            },
            None => spec_cases_scan(items, i + 1, acc),
        }
    }
}

/// The diagnostics the elements of a `filenameCases` array append.
pub open spec fn spec_cases_items_diags(items: Seq<Value>, i: int) -> Seq<DiagnosticModel>
    decreases items.len() - i,
{
    if i < 0 || i >= items.len() {
        Seq::empty()
    } else {
        spec_case_deser_diags(items[i]) + spec_cases_items_diags(items, i + 1)
    }
}

/// What decoding a whole `filenameCases` field yields: nothing when the value
/// is not an array, and nothing when the decoded set comes out empty.
pub open spec fn spec_cases_deser(v: Value) -> Option<Seq<FilenameCase>> {
    match v.data {
        ValueData::Array(items) => {
            let cs = spec_cases_scan(items@, 0, Seq::empty());
            if cs.len() == 0 {
                None
            } else {
                Some(cs)
            }
        },
        _ => None,
    }
}

/// The diagnostics decoding a whole `filenameCases` field appends: those of
/// its elements, then a dedicated one when the set comes out empty.
pub open spec fn spec_cases_deser_diags(v: Value, name: Seq<char>) -> Seq<DiagnosticModel> {
    match v.data {
        ValueData::Array(items) => {
            let ds = spec_cases_items_diags(items@, 0);
            if spec_cases_scan(items@, 0, Seq::empty()).len() == 0 {
                ds + seq![DiagnosticModel::EmptyArray { name: name, range: v.range }]
            } else {
                ds
            }
        },
        _ => seq![DiagnosticModel::IncorrectType { expected: "array"@, range: v.range }],
    }
}

/// The non-empty set of cases a filename is allowed to follow.
#[derive(Debug, Clone)]
pub struct FilenameCases(pub Vec<FilenameCase>);

/// Whether a list of allowed cases holds a given one.
pub fn contains_case(v: &Vec<FilenameCase>, c: FilenameCase) -> (r: bool)
    ensures
        r == v@.contains(c),
{
    let mut i: usize = 0;
    while i < v.len()
        invariant
            i <= v@.len(),
            forall|j: int| 0 <= j < i ==> v@[j] != c,
        decreases v@.len() - i,
    {
        if v[i] == c {
            return true;
        }
        i = i + 1;
    }
    false
}

impl FilenameCases {
    /// The styles the configured cases enforce; `Export` names none.
    pub fn cases(&self) -> (r: Vec<Case>)
        ensures
            r@ == cases_from(self.0@, 0),
    {
        let v = &self.0;
        let mut r: Vec<Case> = Vec::new();
        let mut i: usize = 0;
        while i < v.len()
            invariant
                i <= v@.len(),
                r@ + cases_from(v@, i as int) == cases_from(v@, 0),
            decreases v@.len() - i,
        {
            let ghost before = r@;
            match Case::try_from(v[i]) {
                Result::Ok(c) => {
                    r.push(c);
                    proof {
                        assert(cases_from(v@, i as int) == seq![fc_to_case(v@[i as int])] + cases_from(v@, i + 1));
                        assert(r@ + cases_from(v@, i + 1) =~= before + cases_from(v@, i as int));
                    }
                },
                Result::Err(_) => {
                    proof {
                        assert(cases_from(v@, i as int) == cases_from(v@, i + 1));
                    }
                },
            }
            i = i + 1;
        }
        proof {
            assert(cases_from(v@, i as int) =~= Seq::<Case>::empty());
            assert(r@ =~= cases_from(v@, 0));
        }
        r
    }

    /// Decodes the `filenameCases` field: an array of case literals, each
    /// decoded independently, kept as a set; an empty result is rejected with
    /// a dedicated diagnostic and the field falls back to its default.
    pub fn deserialize(value: &Value, name: &str, diagnostics: &mut Vec<DeserializationDiagnostic>) -> (r: Option<FilenameCases>)
        ensures
            match r {
                Some(fcs) => spec_cases_deser(*value) == Some(fcs.0@),
                None => spec_cases_deser(*value) is None,
            },
            diag_models(final(diagnostics)@) == diag_models(old(diagnostics)@)
                + spec_cases_deser_diags(*value, name@),
    {
        let ghost pre = diag_models(diagnostics@);
        match &value.data {
            ValueData::Array(items) => {
                let mut acc: Vec<FilenameCase> = Vec::new();
                let mut i: usize = 0;
                while i < items.len()
                    invariant
                        i <= items@.len(),
                        spec_cases_scan(items@, 0, Seq::empty()) == spec_cases_scan(items@, i as int, acc@),
                        diag_models(diagnostics@) + spec_cases_items_diags(items@, i as int)
                            == pre + spec_cases_items_diags(items@, 0),
                    decreases items@.len() - i,
                {
                    let ghost dpre = diag_models(diagnostics@);
                    let item = &items[i];
                    match FilenameCase::deserialize(item, name, diagnostics) {
                        Some(c) => {
                            if !contains_case(&acc, c) {
                                acc.push(c);
                            }
                        },
                        None => {},
                    }
                    proof {
                        assert(spec_cases_items_diags(items@, i as int)
                            == spec_case_deser_diags(items@[i as int]) + spec_cases_items_diags(items@, i + 1));
                        assert(diag_models(diagnostics@) + spec_cases_items_diags(items@, i + 1)
                            =~= dpre + spec_cases_items_diags(items@, i as int));
                    }
                    i = i + 1;
                }
                proof {
                    assert(spec_cases_items_diags(items@, i as int) =~= Seq::<DiagnosticModel>::empty());
                    assert(diag_models(diagnostics@) =~= pre + spec_cases_items_diags(items@, 0));
                    assert(spec_cases_scan(items@, i as int, acc@) == acc@);
                }
                if acc.is_empty() {
                    diagnostics.push(DeserializationDiagnostic::EmptyArray {
                        name: name.to_owned(),
                        range: value.range,
                    });
                    proof {
                        let em = DiagnosticModel::EmptyArray { name: name@, range: value.range };
                        assert(diag_models(diagnostics@)
                            =~= pre + spec_cases_items_diags(items@, 0) + seq![em]);
                        assert(spec_cases_deser_diags(*value, name@)
                            == spec_cases_items_diags(items@, 0) + seq![em]);
                        assert(pre + (spec_cases_items_diags(items@, 0) + seq![em])
                            =~= pre + spec_cases_items_diags(items@, 0) + seq![em]);
                    }
                    None
                } else {
                    proof {
                        assert(diag_models(diagnostics@)
                            =~= pre + spec_cases_deser_diags(*value, name@));
                    }
                    Some(FilenameCases(acc))
                }
            },
            _ => {
                diagnostics.push(DeserializationDiagnostic::IncorrectType {
                    expected: "array".to_owned(),
                    range: value.range,
                });
                proof {
                    assert(diag_models(diagnostics@) =~= pre + spec_cases_deser_diags(*value, name@));
                }
                None
            },
        }
    }
}

impl Default for FilenameCases {
    /// The default convention: camel, export, kebab and snake.
    fn default() -> (r: FilenameCases)
        ensures
            r.0@ == default_cases(),
    {
        let mut v: Vec<FilenameCase> = Vec::new();
        v.push(FilenameCase::Camel);
        v.push(FilenameCase::Export);
        v.push(FilenameCase::Kebab);
        v.push(FilenameCase::Snake);
        proof {
            assert(v@ =~= default_cases());
        }
        FilenameCases(v)
    }
}

/// The cases allowed when the configuration names none.
pub open spec fn default_cases() -> Seq<FilenameCase> {
    seq![FilenameCase::Camel, FilenameCase::Export, FilenameCase::Kebab, FilenameCase::Snake]
}

/// The styles the configured cases enforce, from position `i` on.
pub open spec fn cases_from(s: Seq<FilenameCase>, i: int) -> Seq<Case>
    decreases s.len() - i,
{
    if i < 0 || i >= s.len() {
        Seq::empty()
    } else if s[i] == FilenameCase::Export {
        cases_from(s, i + 1)
    } else {
        seq![fc_to_case(s[i])] + cases_from(s, i + 1)
    }
}

impl Case {
    /// The style a configured case enforces; `export` enforces none.
    pub fn try_from(case: FilenameCase) -> (r: Result<Case, &'static str>)
        ensures
            match r {
                Result::Ok(c) => case != FilenameCase::Export && c == fc_to_case(case),
                Result::Err(e) => case == FilenameCase::Export
                    && e@ == "`export` is not a valid case"@,
            },
    {
        match case {
            FilenameCase::Camel => Result::Ok(Case::Camel),
            FilenameCase::Export => Result::Err("`export` is not a valid case"),
            FilenameCase::Kebab => Result::Ok(Case::Kebab),
            FilenameCase::Pascal => Result::Ok(Case::Pascal),
            FilenameCase::Snake => Result::Ok(Case::Snake),
        }
    }
}

/// The rule's typed, defaulted configuration record.
#[derive(Debug, Clone)]
pub struct FilenamingConventionOptions {
    /// When true, consecutive uppercase letters are forbidden inside camel
    /// and pascal styles.
    pub strict_case: bool,
    /// The conventions a filename may follow.
    pub filename_cases: FilenameCases,
}

pub fn default_strict_case() -> (r: bool)
    ensures
        r == true,
{
    true
}

pub fn is_default_strict_case(strict_case: &bool) -> (r: bool)
    ensures
        r == (*strict_case == true),
{
    *strict_case == default_strict_case()
}

pub fn is_default_filename_cases(value: &FilenameCases) -> (r: bool)
    ensures
        r == (value.0@.len() == 4 && !value.0@.contains(FilenameCase::Pascal)),
{
    value.0.len() == 4 && !contains_case(&value.0, FilenameCase::Pascal)
}

impl Default for FilenamingConventionOptions {
    /// Strict checking against the default cases.
    fn default() -> (r: FilenamingConventionOptions)
        ensures
            r.strict_case == true,
            r.filename_cases.0@ == default_cases(),
    {
        FilenamingConventionOptions {
            strict_case: default_strict_case(),
            filename_cases: FilenameCases::default(),
        }
    }
}

/// The strict-case flag after one map entry is processed.
pub open spec fn spec_entry_strict(k: Value, v: Value, cur: bool) -> bool {
    match k.data {
        ValueData::Str(s) => if s@ == "strictCase"@ {
            match spec_bool_deser(v) {
                Some(b) => b,
                None => cur,
            }
        } else {
            cur
        },
        _ => cur,
    }
}

/// The allowed-case set after one map entry is processed.
pub open spec fn spec_entry_cases(k: Value, v: Value, cur: Seq<FilenameCase>) -> Seq<FilenameCase> {
    match k.data {
        ValueData::Str(s) => if s@ == "filenameCases"@ {
            match spec_cases_deser(v) {
                Some(cs) => cs,
                None => cur,
            }
        } else {
            cur
        },
        _ => cur,
    }
}

/// The diagnostics one map entry appends: those of its field's decoder, an
/// unknown-key report for a key the record does not recognise, or a type
/// report for a key that is not a string.
pub open spec fn spec_entry_diags(k: Value, v: Value) -> Seq<DiagnosticModel> {
    match k.data {
        ValueData::Str(s) => if s@ == "strictCase"@ {
            spec_bool_deser_diags(v)
        } else if s@ == "filenameCases"@ {
            spec_cases_deser_diags(v, s@)
        } else {
            seq![
                DiagnosticModel::UnknownKey {
                    key: s@,
                    range: k.range,
                    allowed_keys: allowed_key_names(),
                },
            ]
        },
        _ => seq![DiagnosticModel::IncorrectType { expected: "string"@, range: k.range }],
    }
}

/// The strict-case flag after the entries from position `i` on are processed.
pub open spec fn spec_opts_strict(entries: Seq<(Value, Value)>, i: int, cur: bool) -> bool
    decreases entries.len() - i,
{
    if i < 0 || i >= entries.len() {
        cur
    } else {
        spec_opts_strict(entries, i + 1, spec_entry_strict(entries[i].0, entries[i].1, cur))
    }
}

/// The allowed-case set after the entries from position `i` on are processed.
pub open spec fn spec_opts_cases(entries: Seq<(Value, Value)>, i: int, cur: Seq<FilenameCase>) -> Seq<FilenameCase>
    decreases entries.len() - i,
{
    if i < 0 || i >= entries.len() {
        cur
    } else {
        spec_opts_cases(entries, i + 1, spec_entry_cases(entries[i].0, entries[i].1, cur))
    }
}

/// The diagnostics the entries from position `i` on append, in order.
pub open spec fn spec_opts_diags(entries: Seq<(Value, Value)>, i: int) -> Seq<DiagnosticModel>
    decreases entries.len() - i,
{
    if i < 0 || i >= entries.len() {
        Seq::empty()
    } else {
        spec_entry_diags(entries[i].0, entries[i].1) + spec_opts_diags(entries, i + 1)
    }
}

/// What decoding a whole options value yields, when it is a map.
pub open spec fn spec_options_strict(v: Value) -> bool {
    match v.data {
        ValueData::Object(entries) => spec_opts_strict(entries@, 0, true),
        _ => true,
    }
}

pub open spec fn spec_options_cases(v: Value) -> Seq<FilenameCase> {
    match v.data {
        ValueData::Object(entries) => spec_opts_cases(entries@, 0, default_cases()),
        _ => default_cases(),
    }
}

/// The diagnostics decoding a whole options value appends.
pub open spec fn spec_options_diags(v: Value) -> Seq<DiagnosticModel> {
    match v.data {
        ValueData::Object(entries) => spec_opts_diags(entries@, 0),
        _ => seq![DiagnosticModel::IncorrectType { expected: "map"@, range: v.range }],
    }
}

/// The recursive-descent decoder of the options record.
pub struct FilenamingConventionOptionsVisitor;

impl FilenamingConventionOptionsVisitor {
    /// Decodes every map entry regardless of earlier failures: unknown keys
    /// are reported and skipped; each recognised key decodes independently,
    /// leaving its field at the default when its decode fails. Always yields
    /// a best-effort record.
    pub fn visit_map(entries: &Vec<(Value, Value)>, _range: TextRange, _name: &str, diagnostics: &mut Vec<DeserializationDiagnostic>) -> (r: FilenamingConventionOptions)
        ensures
            r.strict_case == spec_opts_strict(entries@, 0, true),
            r.filename_cases.0@ == spec_opts_cases(entries@, 0, default_cases()),
            diag_models(final(diagnostics)@) == diag_models(old(diagnostics)@)
                + spec_opts_diags(entries@, 0),
    {
        proof {
            reveal_strlit("strictCase");
            reveal_strlit("filenameCases");
            assert("strictCase"@.len() == 10);
            assert("filenameCases"@.len() == 13);
        }
        let ghost pre = diag_models(diagnostics@);
        let mut result = FilenamingConventionOptions::default();
        let mut i: usize = 0;
        while i < entries.len()
            invariant
                i <= entries@.len(),
                spec_opts_strict(entries@, 0, true)
                    == spec_opts_strict(entries@, i as int, result.strict_case),
                spec_opts_cases(entries@, 0, default_cases())
                    == spec_opts_cases(entries@, i as int, result.filename_cases.0@),
                diag_models(diagnostics@) + spec_opts_diags(entries@, i as int)
                    == pre + spec_opts_diags(entries@, 0),
            decreases entries@.len() - i,
        {
            let ghost dpre = diag_models(diagnostics@);
            let ghost strict0 = result.strict_case;
            let ghost cases0 = result.filename_cases.0@;
            let entry = &entries[i];
            let key = &entry.0;
            let val = &entry.1;
            let ghost e = entries@[i as int];
            proof {
                reveal_strlit("strictCase");
                reveal_strlit("filenameCases");
                assert("strictCase"@.len() == 10);
                assert("filenameCases"@.len() == 13);
                assert(e.0 == *key);
                assert(e.1 == *val);
            }
            match &key.data {
                ValueData::Str(s) => {
                    if str_eq(s.as_str(), "strictCase") {
                        match deserialize_bool(val, diagnostics) {
                            Some(b) => {
                                result.strict_case = b;
                            },
                            None => {},
                        }
                        proof {
                            assert(result.filename_cases.0@ == cases0);
                            assert(spec_entry_cases(e.0, e.1, cases0) == cases0);
                        }
                    } else if str_eq(s.as_str(), "filenameCases") {
                        match FilenameCases::deserialize(val, s.as_str(), diagnostics) {
                            Some(cs) => {
                                result.filename_cases = cs;
                            },
                            None => {},
                        }
                        proof {
                            assert(result.filename_cases.0@ == spec_entry_cases(e.0, e.1, cases0));
                        }
                    } else {
                        let mut allowed: Vec<String> = Vec::new();
                        allowed.push("strictCase".to_owned());
                        allowed.push("filenameCases".to_owned());
                        proof {
                            assert(allowed.deep_view() =~~= allowed_key_names());
                        }
                        diagnostics.push(DeserializationDiagnostic::UnknownKey {
                            key: s.clone(),
                            range: key.range,
                            allowed_keys: allowed,
                        });
                    }
                },
                _ => {
                    diagnostics.push(DeserializationDiagnostic::IncorrectType {
                        expected: "string".to_owned(),
                        range: key.range,
                    });
                },
            }
            proof {
                let e = entries@[i as int];
                assert(result.strict_case == spec_entry_strict(e.0, e.1, strict0));
                assert(result.filename_cases.0@ == spec_entry_cases(e.0, e.1, cases0));
                assert(diag_models(diagnostics@) =~= dpre + spec_entry_diags(e.0, e.1));
                assert(spec_opts_diags(entries@, i as int)
                    == spec_entry_diags(e.0, e.1) + spec_opts_diags(entries@, i + 1));
                assert(diag_models(diagnostics@) + spec_opts_diags(entries@, i + 1)
                    =~= dpre + spec_opts_diags(entries@, i as int));
            }
            i = i + 1;
        }
        proof {
            assert(spec_opts_diags(entries@, i as int) =~= Seq::<DiagnosticModel>::empty());
            assert(diag_models(diagnostics@) =~= pre + spec_opts_diags(entries@, 0));
        }
        result
    }
}

impl FilenamingConventionOptions {
    /// Decodes the options record from an untyped value: a map is decoded
    /// entry by entry; anything else is reported and yields nothing, leaving
    /// the caller on the record default.
    pub fn deserialize(value: &Value, name: &str, diagnostics: &mut Vec<DeserializationDiagnostic>) -> (r: Option<FilenamingConventionOptions>)
        ensures
            match r {
                Some(o) => value.data is Object
                    && o.strict_case == spec_options_strict(*value)
                    && o.filename_cases.0@ == spec_options_cases(*value),
                None => !(value.data is Object),
            },
            diag_models(final(diagnostics)@) == diag_models(old(diagnostics)@)
                + spec_options_diags(*value),
    {
        let ghost pre = diag_models(diagnostics@);
        match &value.data {
            ValueData::Object(entries) => {
                Some(FilenamingConventionOptionsVisitor::visit_map(entries, value.range, name, diagnostics))
            },
            _ => {
                diagnostics.push(DeserializationDiagnostic::IncorrectType {
                    expected: "map".to_owned(),
                    range: value.range,
                });
                proof {
                    assert(diag_models(diagnostics@) =~= pre + spec_options_diags(*value));
                }
                None
            },
        }
    }
}

} // verus!
