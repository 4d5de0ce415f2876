use vstd::prelude::*;

use crate::text::push_all;

verus! {

/// The naming style of an identifier, as recognised by the filename rule.
/// `Lower` is a single lowercase word; `Unknown` is anything that fits no
/// recognised style.
#[derive(Debug, Clone, Copy, PartialEq, Eq, Structural)]
pub enum Case {
    Camel,
    Kebab,
    Lower,
    Pascal,
    Snake,
    Unknown,
}

pub open spec fn is_lower_char(c: char) -> bool {
    'a' <= c && c <= 'z'
}

pub open spec fn is_upper_char(c: char) -> bool {
    'A' <= c && c <= 'Z'
}

pub open spec fn is_digit_char(c: char) -> bool {
    '0' <= c && c <= '9'
}

pub open spec fn is_alnum_char(c: char) -> bool {
    is_lower_char(c) || is_upper_char(c) || is_digit_char(c)
}

/// The lowercase counterpart of an ASCII letter; other characters unchanged.
pub open spec fn to_lower_char(c: char) -> char {
    if is_upper_char(c) {
        ((c as u8) + 32) as char
    } else {
        c
    }
}

/// The uppercase counterpart of an ASCII letter; other characters unchanged.
pub open spec fn to_upper_char(c: char) -> char {
    if is_lower_char(c) {
        ((c as u8) - 32) as char
    } else {
        c
    }
}

pub fn lower_char(c: char) -> (r: char)
    ensures
        r == to_lower_char(c),
{
    if 'A' <= c && c <= 'Z' {
        ((c as u8) + 32) as char
    } else {
        c
    }
}

pub fn upper_char(c: char) -> (r: char)
    ensures
        r == to_upper_char(c),
{
    if 'a' <= c && c <= 'z' {
        ((c as u8) - 32) as char
    } else {
        c
    }
}

/// A non-empty run of lowercase letters and digits: one lowercase word.
pub open spec fn is_lower_string(s: Seq<char>) -> bool {
    s.len() > 0 && forall|i: int| 0 <= i < s.len() ==> is_lower_char(s[i]) || is_digit_char(s[i])
}

/// Lowercase words and digits separated by hyphens, with at least one hyphen.
pub open spec fn is_kebab_string(s: Seq<char>) -> bool {
    s.len() > 0
    && (forall|i: int| 0 <= i < s.len() ==> is_lower_char(s[i]) || is_digit_char(s[i]) || s[i] == '-')
    && (exists|i: int| 0 <= i < s.len() && s[i] == '-')
}

/// Lowercase words and digits separated by underscores, with at least one underscore.
pub open spec fn is_snake_string(s: Seq<char>) -> bool {
    s.len() > 0
    && (forall|i: int| 0 <= i < s.len() ==> is_lower_char(s[i]) || is_digit_char(s[i]) || s[i] == '_')
    && (exists|i: int| 0 <= i < s.len() && s[i] == '_')
}

pub open spec fn all_alnum(s: Seq<char>) -> bool {
    forall|i: int| 0 <= i < s.len() ==> is_alnum_char(s[i])
}

pub open spec fn has_upper(s: Seq<char>) -> bool {
    exists|i: int| 0 <= i < s.len() && is_upper_char(s[i])
}

/// Two uppercase letters standing side by side somewhere in `s`.
pub open spec fn has_consecutive_upper(s: Seq<char>) -> bool {
    exists|i: int| 0 <= i && i + 1 < s.len() && is_upper_char(#[trigger] s[i]) && is_upper_char(s[i + 1])
}

/// camelCase: alphanumeric, starting lowercase, with at least one uppercase
/// letter; in strict mode consecutive uppercase letters are forbidden.
pub open spec fn is_camel_string(s: Seq<char>, strict: bool) -> bool {
    s.len() > 0
    && is_lower_char(s[0])
    && all_alnum(s)
    && has_upper(s)
    && (strict ==> !has_consecutive_upper(s))
}

/// PascalCase: alphanumeric, starting uppercase; in strict mode consecutive
/// uppercase letters are forbidden.
pub open spec fn is_pascal_string(s: Seq<char>, strict: bool) -> bool {
    s.len() > 0
    && is_upper_char(s[0])
    && all_alnum(s)
    && (strict ==> !has_consecutive_upper(s))
}

/// The style of `s`: the first of lower, kebab, snake, camel, pascal that
/// fits, and `Unknown` when none does. `strict` forbids consecutive
/// uppercase letters inside camel and pascal.
pub open spec fn identify_case(s: Seq<char>, strict: bool) -> Case {
    if is_lower_string(s) {
        Case::Lower
    } else if is_kebab_string(s) {
        Case::Kebab
    } else if is_snake_string(s) {
        Case::Snake
    } else if is_camel_string(s, strict) {
        Case::Camel
    } else if is_pascal_string(s, strict) {
        Case::Pascal
    } else {
        Case::Unknown
    }
}

/// A single lowercase word fits camel, kebab and snake conventions; every
/// style is compatible with itself.
pub open spec fn spec_compatible(found: Case, allowed: Case) -> bool {
    found == allowed
    || (found == Case::Lower && (allowed == Case::Camel || allowed == Case::Kebab
        || allowed == Case::Snake))
}

impl Case {
    /// Classifies a name, in strict or permissive mode.
    pub fn identify(s: &Vec<char>, strict: bool) -> (r: Case)
        ensures
            r == identify_case(s@, strict),
    {
        let n: usize = s.len();
        let mut all_ld: bool = true;  // lowercase letters and digits only
        let mut all_kebab: bool = true;
        let mut all_snake: bool = true;
        let mut alnum: bool = true;
        let mut any_hyphen: bool = false;
        let mut any_underscore: bool = false;
        let mut any_upper: bool = false;
        let mut consec_upper: bool = false;
        let mut i: usize = 0;
        while i < n
            invariant
                n == s@.len(),
                i <= n,
                all_ld == forall|j: int| 0 <= j < i ==> is_lower_char(s@[j]) || is_digit_char(s@[j]),
                all_kebab == forall|j: int| 0 <= j < i ==> is_lower_char(s@[j]) || is_digit_char(s@[j]) || s@[j] == '-',
                all_snake == forall|j: int| 0 <= j < i ==> is_lower_char(s@[j]) || is_digit_char(s@[j]) || s@[j] == '_',
                alnum == forall|j: int| 0 <= j < i ==> is_alnum_char(s@[j]),
                any_hyphen == exists|j: int| 0 <= j < i && s@[j] == '-',
                any_underscore == exists|j: int| 0 <= j < i && s@[j] == '_',
                any_upper == exists|j: int| 0 <= j < i && is_upper_char(s@[j]),
                consec_upper == exists|j: int| 0 <= j && j + 1 < i && is_upper_char(#[trigger] s@[j]) && is_upper_char(s@[j + 1]),
            decreases n - i,
        {
            let c = s[i];
            let lower = 'a' <= c && c <= 'z';
            let upper = 'A' <= c && c <= 'Z';
            let digit = '0' <= c && c <= '9';
            if !(lower || digit) {
                all_ld = false;
            }
            if !(lower || digit || c == '-') {
                all_kebab = false;
            }
            if !(lower || digit || c == '_') {
                all_snake = false;
            }
            if !(lower || upper || digit) {
                alnum = false;
            }
            if c == '-' {
                any_hyphen = true;
            }
            if c == '_' {
                any_underscore = true;
            }
            if upper {
                if i > 0 && !consec_upper {
                    let p = s[i - 1];
                    if 'A' <= p && p <= 'Z' {
                        consec_upper = true;
                    }
                }
                any_upper = true;
            }
            i = i + 1;
        }
        let first_lower = n > 0 && { let c = s[0]; 'a' <= c && c <= 'z' };
        let first_upper = n > 0 && { let c = s[0]; 'A' <= c && c <= 'Z' };
        if n > 0 && all_ld {
            Case::Lower
        } else if n > 0 && all_kebab && any_hyphen {
            Case::Kebab
        } else if n > 0 && all_snake && any_underscore {
            Case::Snake
        } else if n > 0 && first_lower && alnum && any_upper && (!strict || !consec_upper) {
            Case::Camel
        } else if n > 0 && first_upper && alnum && (!strict || !consec_upper) {
            Case::Pascal
        } else {
            Case::Unknown
        }
    }

    /// Converts a name into this style, by splitting it into words and
    /// joining them back as the style prescribes. `Lower` and `Unknown`
    /// leave the name unchanged.
    pub fn convert(self, s: &Vec<char>) -> (r: Vec<char>)
        ensures
            r@ == convert_case(self, s@),
    {
        match self {
            Case::Kebab => join_words_sep(&split_words_exec(s), '-'),
            Case::Snake => join_words_sep(&split_words_exec(s), '_'),
            Case::Camel => {
                let ws = split_words_exec(s);
                let ghost wsv = ws.deep_view();
                if ws.len() == 0 {
                    let r: Vec<char> = Vec::new();
                    proof {
                        assert(r@ =~= convert_case(self, s@));
                    }
                    r
                } else {
                    let mut r = lower_word_exec(&ws[0]);
                    let rest = join_words_caps(&ws, 1);
                    push_all(&mut r, &rest);
                    proof {
                        assert(ws@[0]@ == wsv[0]);
                        assert(r@ =~= convert_case(self, s@));
                    }
                    r
                }
            },
            Case::Pascal => {
                let ws = split_words_exec(s);
                join_words_caps(&ws, 0)
            },
            Case::Lower => {
                let mut r: Vec<char> = Vec::new();
                push_all(&mut r, s);
                proof {
                    assert(r@ =~= s@);
                }
                r
            },
            Case::Unknown => {
                let mut r: Vec<char> = Vec::new();
                push_all(&mut r, s);
                proof {
                    assert(r@ =~= s@);
                }
                r
            },
        }
    }

    /// The human-readable name of this style, as it appears in diagnostics.
    pub fn style_name(self) -> (r: String)
        ensures
            r@ == style_name_chars(self),
    {
        match self {
            Case::Camel => "camelCase".to_owned(),
            Case::Kebab => "kebab-case".to_owned(),
            Case::Lower => "lowercase".to_owned(),
            Case::Pascal => "PascalCase".to_owned(),
            Case::Snake => "snake_case".to_owned(),
            Case::Unknown => "unknown case".to_owned(),
        }
    }

    /// Whether a name whose style is `self` satisfies the `allowed` style.
    pub fn is_compatible_with(self, allowed: Case) -> (r: bool)
        ensures
            r == spec_compatible(self, allowed),
    {
        if self == allowed {
            true
        } else {
            self == Case::Lower && (allowed == Case::Camel || allowed == Case::Kebab
                || allowed == Case::Snake)
        }
    }
}

/// The name of a style as shown in messages.
pub open spec fn style_name_chars(c: Case) -> Seq<char> {
    match c {
        Case::Camel => "camelCase"@,
        Case::Kebab => "kebab-case"@,
        Case::Lower => "lowercase"@,
        Case::Pascal => "PascalCase"@,
        Case::Snake => "snake_case"@,
        Case::Unknown => "unknown case"@,
    }
}

/// `acc` with `cur` appended as one more word, unless `cur` is empty.
pub open spec fn flush_word(acc: Seq<Seq<char>>, cur: Seq<char>) -> Seq<Seq<char>> {
    if cur.len() > 0 {
        acc.push(cur)
    } else {
        acc
    }
}

/// Splitting a name into words, from position `i`, with `cur` the word being
/// read and `acc` the words already complete. A word ends at a non-alphanumeric
/// character, before an uppercase letter that follows a non-uppercase one, and
/// before the last letter of an uppercase run that is followed by a lowercase
/// letter (so an acronym keeps its letters together).
pub open spec fn words_scan(s: Seq<char>, i: int, cur: Seq<char>, acc: Seq<Seq<char>>) -> Seq<Seq<char>>
    decreases s.len() - i,
{
    if i < 0 || i >= s.len() {
        flush_word(acc, cur)
    } else {
        let c = s[i];
        if !is_alnum_char(c) {
            words_scan(s, i + 1, Seq::empty(), flush_word(acc, cur))
        } else if is_upper_char(c) && cur.len() > 0 && !is_upper_char(cur.last()) {
            words_scan(s, i + 1, seq![c], acc.push(cur))
        } else if is_lower_char(c) && cur.len() >= 2 && is_upper_char(cur.last())
            && is_upper_char(cur[cur.len() - 2]) {
            words_scan(s, i + 1, seq![cur.last(), c], acc.push(cur.drop_last()))
        } else {
            words_scan(s, i + 1, cur.push(c), acc)
        }
    }
}

/// The words of a name.
pub open spec fn split_words(s: Seq<char>) -> Seq<Seq<char>> {
    words_scan(s, 0, Seq::empty(), Seq::empty())
}

/// A word with every letter lowercased.
pub open spec fn lower_word(w: Seq<char>) -> Seq<char> {
    w.map(|i: int, c: char| to_lower_char(c))
}

/// A word with its first letter uppercased and the rest lowercased.
pub open spec fn capital_word(w: Seq<char>) -> Seq<char> {
    if w.len() == 0 {
        w
    } else {
        seq![to_upper_char(w[0])] + lower_word(w.subrange(1, w.len() as int))
    }
}

/// Lowercased words from position `i` on, joined with `sep` between them.
pub open spec fn sep_join_words(ws: Seq<Seq<char>>, i: int, sep: char) -> Seq<char>
    decreases ws.len() - i,
{
    if i < 0 || i >= ws.len() {
        Seq::empty()
    } else if i == ws.len() - 1 {
        lower_word(ws[i])
    } else {
        lower_word(ws[i]) + seq![sep] + sep_join_words(ws, i + 1, sep)
    }
}

/// Capitalised words from position `i` on, joined with nothing between them.
pub open spec fn caps_join_words(ws: Seq<Seq<char>>, i: int) -> Seq<char>
    decreases ws.len() - i,
{
    if i < 0 || i >= ws.len() {
        Seq::empty()
    } else {
        capital_word(ws[i]) + caps_join_words(ws, i + 1)
    }
}

/// A name rewritten in the given style.
pub open spec fn convert_case(case: Case, s: Seq<char>) -> Seq<char> {
    let ws = split_words(s);
    match case {
        Case::Kebab => sep_join_words(ws, 0, '-'),
        Case::Snake => sep_join_words(ws, 0, '_'),
        Case::Camel => if ws.len() == 0 {
            Seq::empty()
        } else {
            lower_word(ws[0]) + caps_join_words(ws, 1)
        },
        Case::Pascal => caps_join_words(ws, 0),
        Case::Lower => s,
        Case::Unknown => s,
    }
}

/// Splits a name into its words.
pub fn split_words_exec(s: &Vec<char>) -> (r: Vec<Vec<char>>)
    ensures
        r.deep_view() == split_words(s@),
{
    let mut acc: Vec<Vec<char>> = Vec::new();
    let mut cur: Vec<char> = Vec::new();
    proof {
        assert(acc.deep_view() =~~= Seq::<Seq<char>>::empty());
    }
    let mut i: usize = 0;
    while i < s.len()
        invariant
            i <= s@.len(),
            split_words(s@) == words_scan(s@, i as int, cur@, acc.deep_view()),
        decreases s@.len() - i,
    {
        let c = s[i];
        let lower = 'a' <= c && c <= 'z';
        let upper = 'A' <= c && c <= 'Z';
        let digit = '0' <= c && c <= '9';
        let ghost old_acc = acc.deep_view();
        let ghost old_cur = cur@;
        let ghost step = words_scan(s@, i as int, old_cur, old_acc);
        if !(lower || upper || digit) {
            if cur.len() > 0 {
                acc.push(cur);
                cur = Vec::new();
                proof {
                    assert(acc.deep_view() =~~= old_acc.push(old_cur));
                }
            }
            proof {
                assert(step == words_scan(s@, i + 1, Seq::<char>::empty(), flush_word(old_acc, old_cur)));
                assert(cur@ =~= Seq::<char>::empty());
                assert(acc.deep_view() == flush_word(old_acc, old_cur));
            }
        } else if upper && cur.len() > 0 && !{ let p = cur[cur.len() - 1]; 'A' <= p && p <= 'Z' } {
            acc.push(cur);
            cur = Vec::new();
            cur.push(c);
            proof {
                assert(step == words_scan(s@, i + 1, seq![c], old_acc.push(old_cur)));
                assert(acc.deep_view() =~~= old_acc.push(old_cur));
                assert(cur@ =~= seq![c]);
            }
        } else if lower && cur.len() >= 2 && { let p = cur[cur.len() - 1]; 'A' <= p && p <= 'Z' }
            && { let q = cur[cur.len() - 2]; 'A' <= q && q <= 'Z' } {
            let last = cur[cur.len() - 1];
            cur.pop();
            acc.push(cur);
            cur = Vec::new();
            cur.push(last);
            cur.push(c);
            proof {
                assert(step == words_scan(s@, i + 1, seq![old_cur.last(), c], old_acc.push(old_cur.drop_last())));
                assert(acc.deep_view() =~~= old_acc.push(old_cur.drop_last()));
                assert(cur@ =~= seq![old_cur.last(), c]);
            }
        } else {
            cur.push(c);
            proof {
                assert(step == words_scan(s@, i + 1, old_cur.push(c), old_acc));
                assert(cur@ =~= old_cur.push(c));
            }
        }
        i = i + 1;
    }
    if cur.len() > 0 {
        let ghost old_acc = acc.deep_view();
        let ghost old_cur = cur@;
        acc.push(cur);
        proof {
            assert(acc.deep_view() =~~= old_acc.push(old_cur));
        }
    }
    acc
}

/// Lowercases every letter of a word.
pub fn lower_word_exec(w: &Vec<char>) -> (r: Vec<char>)
    ensures
        r@ == lower_word(w@),
{
    let mut r: Vec<char> = Vec::new();
    let mut i: usize = 0;
    while i < w.len()
        invariant
            i <= w@.len(),
            r@.len() == i,
            forall|j: int| 0 <= j < i ==> r@[j] == to_lower_char(w@[j]),
        decreases w@.len() - i,
    {
        r.push(lower_char(w[i]));
        i = i + 1;
    }
    proof {
        assert(r@ =~= lower_word(w@));
    }
    r
}

/// Uppercases the first letter of a word and lowercases the rest.
pub fn capital_word_exec(w: &Vec<char>) -> (r: Vec<char>)
    ensures
        r@ == capital_word(w@),
{
    let mut r: Vec<char> = Vec::new();
    if w.len() == 0 {
        proof {
            assert(r@ =~= capital_word(w@));
        }
        return r;
    }
    r.push(upper_char(w[0]));
    let mut i: usize = 1;
    while i < w.len()
        invariant
            1 <= i <= w@.len(),
            r@.len() == i,
            r@[0] == to_upper_char(w@[0]),
            forall|j: int| 1 <= j < i ==> r@[j] == to_lower_char(w@[j]),
        decreases w@.len() - i,
    {
        r.push(lower_char(w[i]));
        i = i + 1;
    }
    proof {
        assert(r@ =~= capital_word(w@));
    }
    r
}

/// Joins the lowercased words with a separator character between them.
fn join_words_sep(ws: &Vec<Vec<char>>, sep: char) -> (r: Vec<char>)
    ensures
        r@ == sep_join_words(ws.deep_view(), 0, sep),
{
    let ghost wsv = ws.deep_view();
    proof {
        assert(wsv.len() == ws@.len());
    }
    let mut r: Vec<char> = Vec::new();
    let mut i: usize = 0;
    while i < ws.len()
        invariant
            wsv == ws.deep_view(),
            wsv.len() == ws@.len(),
            i <= wsv.len(),
            i == 0 ==> r@ == Seq::<char>::empty(),
            0 < i < wsv.len() ==> r@ + seq![sep] + sep_join_words(wsv, i as int, sep)
                == sep_join_words(wsv, 0, sep),
            i > 0 && i == wsv.len() ==> r@ == sep_join_words(wsv, 0, sep),
        decreases wsv.len() - i,
    {
        let ghost before = r@;
        if i > 0 {
            r.push(sep);
        }
        let word = lower_word_exec(&ws[i]);
        push_all(&mut r, &word);
        proof {
            assert(ws@[i as int]@ == wsv[i as int]);
            if i == 0 {
                if i + 1 < wsv.len() {
                    assert(r@ + seq![sep] + sep_join_words(wsv, 1, sep)
                        =~= sep_join_words(wsv, 0, sep));
                } else {
                    assert(r@ =~= sep_join_words(wsv, 0, sep));
                }
            } else {
                assert(r@ =~= before + seq![sep] + lower_word(wsv[i as int]));
                if i + 1 < wsv.len() {
                    assert(sep_join_words(wsv, i as int, sep)
                        == lower_word(wsv[i as int]) + seq![sep] + sep_join_words(wsv, i + 1, sep));
                    assert(r@ + seq![sep] + sep_join_words(wsv, i + 1, sep)
                        =~= before + seq![sep] + sep_join_words(wsv, i as int, sep));
                } else {
                    assert(sep_join_words(wsv, i as int, sep) == lower_word(wsv[i as int]));
                    assert(r@ =~= before + seq![sep] + sep_join_words(wsv, i as int, sep));
                }
            }
        }
        i = i + 1;
    }
    proof {
        if wsv.len() == 0 {
            assert(r@ =~= sep_join_words(wsv, 0, sep));
        }
    }
    r
}

/// Joins the capitalised words from position `from` on.
fn join_words_caps(ws: &Vec<Vec<char>>, from: usize) -> (r: Vec<char>)
    ensures
        r@ == caps_join_words(ws.deep_view(), from as int),
{
    let ghost wsv = ws.deep_view();
    proof {
        assert(wsv.len() == ws@.len());
    }
    let mut r: Vec<char> = Vec::new();
    let mut i: usize = from;
    while i < ws.len()
        invariant
            wsv == ws.deep_view(),
            wsv.len() == ws@.len(),
            from <= i || i == from,
            i <= wsv.len() || i == from,
            r@ + caps_join_words(wsv, i as int) == caps_join_words(wsv, from as int),
        decreases wsv.len() - i,
    {
        let ghost before = r@;
        let word = capital_word_exec(&ws[i]);
        push_all(&mut r, &word);
        proof {
            assert(ws@[i as int]@ == wsv[i as int]);
            assert(caps_join_words(wsv, i as int)
                == capital_word(wsv[i as int]) + caps_join_words(wsv, i + 1));
            assert(r@ + caps_join_words(wsv, i + 1)
                =~= before + caps_join_words(wsv, i as int));
        }
        i = i + 1;
    }
    proof {
        assert(caps_join_words(wsv, i as int) =~= Seq::<char>::empty());
        assert(r@ =~= caps_join_words(wsv, from as int));
    }
    r
}

} // verus!
