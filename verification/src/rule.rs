use vstd::prelude::*;

use crate::case::Case;
use crate::case::convert_case;
use crate::case::identify_case;
use crate::case::spec_compatible;
use crate::case::style_name_chars;
use crate::diagnostics::RuleDiagnostic;
use crate::options::FilenameCase;
use crate::options::FilenamingConventionOptions;
use crate::options::cases_from;
use crate::options::contains_case;
use crate::semantics::Binding;
use crate::semantics::SemanticModel;
use crate::text::chars_eq;
use crate::text::dedup_chars;
use crate::text::dedup_exec;
use crate::text::chars_of;
use crate::text::join_from;
use crate::text::push_all;
use crate::text::replace_first;
use crate::text::replace_first_exec;
use crate::text::join_with;
use crate::text::split_chars;
use crate::text::split_on;
use crate::text::string_of;
use crate::text::trim_underscores;
use crate::text::trim_underscores_exec;

verus! {

/// What a single match of the filename rule found: the name violates the
/// convention, or an extension is not strictly lowercase.
#[derive(Debug, Clone, Copy, PartialEq, Eq, Structural)]
pub enum FileNamingConventionState {
    Filename,
    Extension,
}

/// What one resolved match hands the rule: the document's filename, the
/// rule's decoded options, and the semantic model of the document.
pub struct RuleContext {
    pub file_name: String,
    pub options: FilenamingConventionOptions,
    pub model: SemanticModel,
}

/// The stable identity of the filename rule.
pub open spec fn rule_category_chars() -> Seq<char> {
    "lint/nursery/useFilenamingConvention"@
}

/// The position of the name segment among the dot-separated segments of a
/// filename: the first segment, or the second when the filename starts with
/// a dot, or none when neither exists.
pub open spec fn name_index(segs: Seq<Seq<char>>) -> Option<int> {
    if segs.len() == 0 {
        None
    } else if segs[0].len() > 0 {
        Some(0)
    } else if segs.len() >= 2 {
        Some(1)
    } else {
        None
    }
}

/// Every segment after the name is a strictly lowercase extension.
pub open spec fn extensions_lower(segs: Seq<Seq<char>>, k: int) -> bool {
    forall|i: int| k < i < segs.len() ==> identify_case(#[trigger] segs[i], true) == Case::Lower
}

/// Some exported binding of the document bears exactly this name.
pub open spec fn exports_name(bindings: Seq<Binding>, name: Seq<char>) -> bool {
    exists|i: int| 0 <= i < bindings.len() && (#[trigger] bindings[i]).exported
        && bindings[i].name@ == name
}

/// The identified style fits one of the allowed styles.
pub open spec fn some_case_compatible(found: Case, allowed: Seq<Case>) -> bool {
    exists|i: int| 0 <= i < allowed.len() && spec_compatible(found, #[trigger] allowed[i])
}

/// What the rule reports for a filename: extension checking comes first and
/// short-circuits name checking; then a name whose trimmed form fits an
/// allowed style passes; then, in export mode, a name equal to an exported
/// binding's name passes; anything else is a filename violation. A filename
/// without a name segment is never reported.
pub open spec fn spec_run(
    file: Seq<char>,
    strict: bool,
    fcases: Seq<FilenameCase>,
    bindings: Seq<Binding>,
) -> Option<FileNamingConventionState> {
    let segs = split_chars(file, '.');
    match name_index(segs) {
        None => None,
        Some(k) => {
            let name = segs[k];
            if !extensions_lower(segs, k) {
                Some(FileNamingConventionState::Extension)
            } else {
                let allowed = cases_from(fcases, 0);
                let trimmed = trim_underscores(name);
                if allowed.len() > 0 && some_case_compatible(identify_case(trimmed, strict), allowed) {
                    None
                } else if fcases.contains(FilenameCase::Export) {
                    if exports_name(bindings, name) {
                        None
                    } else {
                        Some(FileNamingConventionState::Filename)
                    }
                } else {
                    Some(FileNamingConventionState::Filename)
                }
            }
        },
    }
}

/// The filename naming-convention rule.
pub struct UseFilenamingConvention;

impl UseFilenamingConvention {
    /// Checks one document's filename against the configured conventions.
    pub fn run(ctx: &RuleContext) -> (r: Option<FileNamingConventionState>)
        ensures
            r == spec_run(
                ctx.file_name@,
                ctx.options.strict_case,
                ctx.options.filename_cases.0@,
                ctx.model.bindings@,
            ),
    {
        let file = chars_of(ctx.file_name.as_str());
        let segs = split_on(&file, '.');
        let ghost sv = segs.deep_view();
        proof {
            assert(sv.len() == segs@.len());
            assert(sv == split_chars(ctx.file_name@, '.'));
        }
        let k: usize;
        if segs.len() == 0 {
            return None;
        } else if segs[0].len() > 0 {
            k = 0;
        } else if segs.len() >= 2 {
            k = 1;
        } else {
            return None;
        }
        proof {
            assert(segs@[0]@ == sv[0]);
            assert(name_index(sv) == Some(k as int));
        }
        let name = &segs[k];
        proof {
            assert(name@ == sv[k as int]);
        }
        let mut i: usize = k + 1;
        while i < segs.len()
            invariant
                sv == segs.deep_view(),
                sv.len() == segs@.len(),
                sv == split_chars(ctx.file_name@, '.'),
                name_index(sv) == Some(k as int),
                k < i <= sv.len(),
                forall|j: int| k < j < i ==> identify_case(#[trigger] sv[j], true) == Case::Lower,
            decreases sv.len() - i,
        {
            let c = Case::identify(&segs[i], true);
            proof {
                assert(segs@[i as int]@ == sv[i as int]);
            }
            if c != Case::Lower {
                proof {
                    assert(!extensions_lower(sv, k as int));
                }
                return Some(FileNamingConventionState::Extension);
            }
            i = i + 1;
        }
        proof {
            assert(extensions_lower(sv, k as int));
        }
        let allowed = ctx.options.filename_cases.cases();
        if allowed.len() > 0 {
            let trimmed = trim_underscores_exec(name);
            let found = Case::identify(&trimmed, ctx.options.strict_case);
            let mut j: usize = 0;
            while j < allowed.len()
                invariant
                    allowed@ == cases_from(ctx.options.filename_cases.0@, 0),
                    j <= allowed@.len(),
                    found == identify_case(trim_underscores(sv[k as int]), ctx.options.strict_case),
                    sv == split_chars(ctx.file_name@, '.'),
                    name_index(sv) == Some(k as int),
                    extensions_lower(sv, k as int),
                    forall|j2: int| 0 <= j2 < j ==> !spec_compatible(found, #[trigger] allowed@[j2]),
                decreases allowed@.len() - j,
            {
                if found.is_compatible_with(allowed[j]) {
                    proof {
                        assert(some_case_compatible(found, allowed@));
                    }
                    return None;
                }
                j = j + 1;
            }
            proof {
                assert(!some_case_compatible(found, allowed@));
            }
        }
        if contains_case(&ctx.options.filename_cases.0, FilenameCase::Export) {
            let bindings = ctx.model.all_bindings();
            let mut b: usize = 0;
            while b < bindings.len()
                invariant
                    bindings == &ctx.model.bindings,
                    b <= bindings@.len(),
                    forall|j2: int| 0 <= j2 < b ==> !((#[trigger] bindings@[j2]).exported
                        && bindings@[j2].name@ == sv[k as int]),
                    sv == split_chars(ctx.file_name@, '.'),
                    name_index(sv) == Some(k as int),
                    extensions_lower(sv, k as int),
                    name@ == sv[k as int],
                    ctx.options.filename_cases.0@.contains(FilenameCase::Export),
                    cases_from(ctx.options.filename_cases.0@, 0).len() == 0
                        || !some_case_compatible(
                            identify_case(trim_underscores(sv[k as int]), ctx.options.strict_case),
                            cases_from(ctx.options.filename_cases.0@, 0),
                        ),
                decreases bindings@.len() - b,
            {
                let binding = &bindings[b];
                if ctx.model.is_exported(binding) {
                    let bname = chars_of(binding.name.as_str());
                    if chars_eq(&bname, name) {
                        proof {
                            assert(exports_name(ctx.model.bindings@, sv[k as int]));
                        }
                        return None;
                    }
                }
                b = b + 1;
            }
            proof {
                assert(!exports_name(ctx.model.bindings@, sv[k as int]));
            }
            Some(FileNamingConventionState::Filename)
        } else {
            Some(FileNamingConventionState::Filename)
        }
    }
}

/// LAW (extension checking first): for every filename whose name resolves,
/// one extension that is not strictly lowercase makes the rule report the
/// extension, whatever the options, the model, and however the name itself
/// would classify.
pub proof fn lemma_extension_precedence(
    file: Seq<char>,
    strict: bool,
    fcases: Seq<FilenameCase>,
    bindings: Seq<Binding>,
    i: int,
)
    requires
        name_index(split_chars(file, '.')) is Some,
        name_index(split_chars(file, '.'))->0 < i < split_chars(file, '.').len(),
        identify_case(split_chars(file, '.')[i], true) != Case::Lower,
    ensures
        spec_run(file, strict, fcases, bindings) == Some(FileNamingConventionState::Extension),
{
    let segs = split_chars(file, '.');
    let k = name_index(segs)->0;
    assert(!extensions_lower(segs, k));
}

/// LAW (leading-dot filenames): a filename that starts with a dot skips the
/// empty first segment; the name the rule checks is the second segment.
pub proof fn lemma_leading_dot_name(file: Seq<char>)
    requires
        file.len() > 0,
        file[0] == '.',
    ensures
        split_chars(file, '.')[0].len() == 0,
        name_index(split_chars(file, '.')) == Some(1int),
{
    crate::text::lemma_split_leading_sep(file, '.');
}

/// LAW (export mode): with lowercase extensions and a name whose trimmed
/// form fits no allowed style, while `export` is among the allowed cases,
/// the rule accepts the filename exactly when some exported binding bears
/// the untrimmed name, and reports a filename violation otherwise — case
/// classification is bypassed entirely for that decision.
pub proof fn lemma_export_mode(
    file: Seq<char>,
    strict: bool,
    fcases: Seq<FilenameCase>,
    bindings: Seq<Binding>,
)
    requires
        name_index(split_chars(file, '.')) is Some,
        extensions_lower(split_chars(file, '.'), name_index(split_chars(file, '.'))->0),
        fcases.contains(FilenameCase::Export),
        !some_case_compatible(
            identify_case(
                trim_underscores(split_chars(file, '.')[name_index(split_chars(file, '.'))->0]),
                strict,
            ),
            cases_from(fcases, 0),
        ),
    ensures
        exports_name(bindings, split_chars(file, '.')[name_index(split_chars(file, '.'))->0])
            ==> spec_run(file, strict, fcases, bindings) is None,
        !exports_name(bindings, split_chars(file, '.')[name_index(split_chars(file, '.'))->0])
            ==> spec_run(file, strict, fcases, bindings)
                == Some(FileNamingConventionState::Filename),
{
}

/// The note shown between the raw name and its trimmed form, when trimming
/// changed it.
pub open spec fn trimmed_info_chars(name: Seq<char>, trimmed: Seq<char>) -> Seq<char> {
    if name != trimmed {
        " trimmed as `"@ + trimmed + "`"@
    } else {
        Seq::empty()
    }
}

/// The display names of the allowed styles.
pub open spec fn style_names_of(allowed: Seq<Case>) -> Seq<Seq<char>> {
    allowed.map(|i: int, c: Case| style_name_chars(c))
}

/// The display names of everything a filename is allowed to be, export mode
/// included.
pub open spec fn allowed_names_list(allowed: Seq<Case>, has_export: bool) -> Seq<Seq<char>> {
    if has_export {
        style_names_of(allowed).push("equal to the name of an export"@)
    } else {
        style_names_of(allowed)
    }
}

/// The main message of a filename violation.
pub open spec fn filename_message_chars(
    name: Seq<char>,
    trimmed: Seq<char>,
    allowed: Seq<Case>,
    has_export: bool,
) -> Seq<char> {
    "The filename"@ + trimmed_info_chars(name, trimmed) + " should be in "@
        + join_from(allowed_names_list(allowed, has_export), 0, " or "@) + "."@
}

/// One suggested rename per allowed style: the first occurrence of the
/// trimmed name replaced by that style's conversion of it.
pub open spec fn suggestion_list(file: Seq<char>, trimmed: Seq<char>, allowed: Seq<Case>) -> Seq<Seq<char>> {
    allowed.map(|i: int, c: Case| replace_first(file, trimmed, convert_case(c, trimmed)))
}

/// The remediation note of a filename violation: the deduplicated suggested
/// renames, one per line.
pub open spec fn rename_note_chars(file: Seq<char>, trimmed: Seq<char>, allowed: Seq<Case>) -> Seq<char> {
    "The filename could be renamed to one of the following names:\n"@
        + join_from(dedup_chars(suggestion_list(file, trimmed, allowed)), 0, "\n"@)
}

/// The message shown instead when the name is plain camelCase and strict
/// classification fails solely on consecutive uppercase letters.
pub open spec fn camel_strict_message_chars(name: Seq<char>, trimmed: Seq<char>) -> Seq<char> {
    "The filename"@ + trimmed_info_chars(name, trimmed)
        + " is in camelCase, however, two consecutive uppercase characters are not allowed because `strictCase` is set to `true`."@
}

pub open spec fn camel_strict_note_chars() -> Seq<char> {
    "If you want to use consecutive uppercase characters in camelCase then consider setting `strictCase` option to `false`."@
}

pub open spec fn extension_message_chars() -> Seq<char> {
    "The file extension should be in lowercase without any special characters."@
}

/// When the extra strict-camel guidance replaces the main message: strict
/// camel was requested, the name is plain camelCase, and strict
/// classification fails solely because of consecutive uppercase letters.
pub open spec fn camel_strict_applies(trimmed: Seq<char>, strict: bool, fcases: Seq<FilenameCase>) -> bool {
    strict && fcases.contains(FilenameCase::Camel)
        && identify_case(trimmed, false) == Case::Camel
        && identify_case(trimmed, true) == Case::Unknown
}

impl UseFilenamingConvention {
    /// Renders one state into a diagnostic. An extension violation has a
    /// fixed message; a filename violation lists what the filename is
    /// allowed to be and suggests renames, or explains the strict-camel
    /// refusal when only consecutive uppercase letters were at fault.
    pub fn diagnostic(ctx: &RuleContext, state: &FileNamingConventionState) -> (r: Option<RuleDiagnostic>)
        ensures
            ({
                let file = ctx.file_name@;
                let segs = split_chars(file, '.');
                let strict = ctx.options.strict_case;
                let fcases = ctx.options.filename_cases.0@;
                let allowed = cases_from(fcases, 0);
                match *state {
                    FileNamingConventionState::Extension => match r {
                        Some(d) => d.category@ == rule_category_chars() && d.range is None
                            && d.message@ == extension_message_chars() && d.notes@.len() == 0,
                        None => false,
                    },
                    FileNamingConventionState::Filename => match name_index(segs) {
                        None => r is None,
                        Some(k) => {
                            let name = segs[k];
                            let trimmed = trim_underscores(name);
                            match r {
                                Some(d) => d.category@ == rule_category_chars() && d.range is None
                                    && if camel_strict_applies(trimmed, strict, fcases) {
                                        d.message@ == camel_strict_message_chars(name, trimmed)
                                            && d.notes.deep_view() == seq![camel_strict_note_chars()]
                                    } else {
                                        d.message@ == filename_message_chars(
                                            name,
                                            trimmed,
                                            allowed,
                                            fcases.contains(FilenameCase::Export),
                                        ) && d.notes.deep_view() == seq![
                                            rename_note_chars(file, trimmed, allowed),
                                        ]
                                    },
                                None => false,
                            }
                        },
                    },
                }
            }),
    {
        match state {
            FileNamingConventionState::Extension => {
                Some(RuleDiagnostic {
                    category: "lint/nursery/useFilenamingConvention".to_owned(),
                    range: None,
                    message: "The file extension should be in lowercase without any special characters.".to_owned(),
                    notes: Vec::new(),
                })
            },
            FileNamingConventionState::Filename => {
                let file = chars_of(ctx.file_name.as_str());
                let segs = split_on(&file, '.');
                let ghost sv = segs.deep_view();
                proof {
                    assert(sv.len() == segs@.len());
                    assert(sv == split_chars(ctx.file_name@, '.'));
                }
                let k: usize;
                if segs.len() == 0 {
                    return None;
                } else if segs[0].len() > 0 {
                    k = 0;
                } else if segs.len() >= 2 {
                    k = 1;
                } else {
                    return None;
                }
                proof {
                    assert(segs@[0]@ == sv[0]);
                    assert(name_index(sv) == Some(k as int));
                }
                let name = &segs[k];
                proof {
                    assert(name@ == sv[k as int]);
                }
                let trimmed = trim_underscores_exec(name);
                let mut tinfo: Vec<char> = Vec::new();
                if !chars_eq(name, &trimmed) {
                    push_all(&mut tinfo, &chars_of(" trimmed as `"));
                    push_all(&mut tinfo, &trimmed);
                    push_all(&mut tinfo, &chars_of("`"));
                    proof {
                        assert(tinfo@ =~= trimmed_info_chars(name@, trimmed@));
                    }
                } else {
                    proof {
                        assert(tinfo@ =~= trimmed_info_chars(name@, trimmed@));
                    }
                }
                if ctx.options.strict_case && contains_case(&ctx.options.filename_cases.0, FilenameCase::Camel) {
                    let loose = Case::identify(&trimmed, false);
                    let strict_found = Case::identify(&trimmed, true);
                    if loose == Case::Camel && strict_found == Case::Unknown {
                        let mut msg: Vec<char> = Vec::new();
                        push_all(&mut msg, &chars_of("The filename"));
                        push_all(&mut msg, &tinfo);
                        push_all(&mut msg, &chars_of(" is in camelCase, however, two consecutive uppercase characters are not allowed because `strictCase` is set to `true`."));
                        let mut notes: Vec<String> = Vec::new();
                        notes.push("If you want to use consecutive uppercase characters in camelCase then consider setting `strictCase` option to `false`.".to_owned());
                        proof {
                            assert(msg@ =~= camel_strict_message_chars(sv[k as int], trimmed@));
                            assert(notes.deep_view() =~~= seq![camel_strict_note_chars()]);
                        }
                        return Some(RuleDiagnostic {
                            category: "lint/nursery/useFilenamingConvention".to_owned(),
                            range: None,
                            message: string_of(&msg),
                            notes,
                        });
                    }
                }
                let allowed = ctx.options.filename_cases.cases();
                let ghost av = allowed@;
                let has_export = contains_case(&ctx.options.filename_cases.0, FilenameCase::Export);
                let mut names: Vec<Vec<char>> = Vec::new();
                let mut i: usize = 0;
                while i < allowed.len()
                    invariant
                        av == allowed@,
                        i <= av.len(),
                        names@.len() == i,
                        forall|j: int| 0 <= j < i ==> names@[j]@ == style_name_chars(av[j]),
                    decreases av.len() - i,
                {
                    let sn = allowed[i].style_name();
                    names.push(chars_of(sn.as_str()));
                    i = i + 1;
                }
                if has_export {
                    names.push(chars_of("equal to the name of an export"));
                }
                proof {
                    assert(names.deep_view() =~~= allowed_names_list(av, has_export));
                }
                let sep_or = chars_of(" or ");
                let name_list = join_with(&names, &sep_or);
                let mut msg: Vec<char> = Vec::new();
                push_all(&mut msg, &chars_of("The filename"));
                push_all(&mut msg, &tinfo);
                push_all(&mut msg, &chars_of(" should be in "));
                push_all(&mut msg, &name_list);
                push_all(&mut msg, &chars_of("."));
                proof {
                    assert(msg@ =~= filename_message_chars(sv[k as int], trimmed@, av, has_export));
                }
                let mut suggs: Vec<Vec<char>> = Vec::new();
                let mut i2: usize = 0;
                while i2 < allowed.len()
                    invariant
                        av == allowed@,
                        i2 <= av.len(),
                        suggs@.len() == i2,
                        trimmed@ == trim_underscores(sv[k as int]),
                        file@ == ctx.file_name@,
                        forall|j: int| 0 <= j < i2 ==> suggs@[j]@ == replace_first(
                            file@,
                            trimmed@,
                            convert_case(av[j], trimmed@),
                        ),
                    decreases av.len() - i2,
                {
                    let conv = allowed[i2].convert(&trimmed);
                    suggs.push(replace_first_exec(&file, &trimmed, &conv));
                    i2 = i2 + 1;
                }
                proof {
                    assert(suggs.deep_view() =~~= suggestion_list(ctx.file_name@, trimmed@, av));
                }
                let unique = dedup_exec(&suggs);
                let sep_nl = chars_of("\n");
                let joined = join_with(&unique, &sep_nl);
                let mut note: Vec<char> = chars_of("The filename could be renamed to one of the following names:\n");
                push_all(&mut note, &joined);
                let mut notes: Vec<String> = Vec::new();
                notes.push(string_of(&note));
                proof {
                    assert(note@ =~= rename_note_chars(ctx.file_name@, trimmed@, av));
                    assert(notes.deep_view() =~~= seq![rename_note_chars(ctx.file_name@, trimmed@, av)]);
                }
                Some(RuleDiagnostic {
                    category: "lint/nursery/useFilenamingConvention".to_owned(),
                    range: None,
                    message: string_of(&msg),
                    notes,
                })
            },
        }
    }
}

} // verus!
