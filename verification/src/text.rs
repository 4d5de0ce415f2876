use vstd::prelude::*;

verus! {

/// A half-open region of source text, measured in bytes from the start of
/// the document. Tree nodes, configuration values and diagnostics all carry
/// one so that reports can point back into the source.
#[derive(Debug, Clone, Copy, PartialEq, Eq, Structural)]
pub struct TextRange {
    pub start: u32,
    pub end: u32,
}

impl TextRange {
    pub fn new(start: u32, end: u32) -> (r: TextRange)
        ensures
            r.start == start,
            r.end == end,
    {
        TextRange { start, end }
    }
}

/// Relies on String::push: appends one character at the end of the string.
#[verifier::external_body]
pub fn push_char(s: &mut String, c: char)
    ensures
        final(s)@ == old(s)@.push(c),
{
    s.push(c)
}

/// Copies the characters of a string slice into a vector, in order.
pub fn chars_of(s: &str) -> (r: Vec<char>)
    ensures
        r@ == s@,
{
    let n: usize = s.unicode_len();
    let mut r: Vec<char> = Vec::new();
    let mut i: usize = 0;
    while i < n
        invariant
            n == s@.len(),
            i <= n,
            r@ == s@.subrange(0, i as int),
        decreases n - i,
    {
        r.push(s.get_char(i));
        proof {
            assert(r@ =~= s@.subrange(0, i + 1 as int));
        }
        i = i + 1;
    }
    proof {
        assert(r@ =~= s@);
    }
    r
}

/// Rebuilds an owned string from a vector of characters.
pub fn string_of(v: &Vec<char>) -> (r: String)
    ensures
        r@ == v@,
{
    let mut r: String = String::new();
    let mut i: usize = 0;
    while i < v.len()
        invariant
            i <= v@.len(),
            r@ == v@.subrange(0, i as int),
        decreases v@.len() - i,
    {
        push_char(&mut r, v[i]);
        proof {
            assert(r@ =~= v@.subrange(0, i + 1 as int));
        }
        i = i + 1;
    }
    proof {
        assert(r@ =~= v@);
    }
    r
}

/// Character-wise equality of two string slices.
pub fn str_eq(a: &str, b: &str) -> (r: bool)
    ensures
        r == (a@ == b@),
{
    let na: usize = a.unicode_len();
    let nb: usize = b.unicode_len();
    if na != nb {
        proof {
            assert(a@ != b@);
        }
        return false;
    }
    let mut i: usize = 0;
    while i < na
        invariant
            na == a@.len(),
            na == b@.len(),
            i <= na,
            forall|j: int| 0 <= j < i ==> a@[j] == b@[j],
        decreases na - i,
    {
        if a.get_char(i) != b.get_char(i) {
            return false;
        }
        i = i + 1;
    }
    proof {
        assert(a@ =~= b@);
    }
    true
}

/// Character-wise equality of two vectors of characters.
pub fn chars_eq(a: &Vec<char>, b: &Vec<char>) -> (r: bool)
    ensures
        r == (a@ == b@),
{
    if a.len() != b.len() {
        proof {
            assert(a@ != b@);
        }
        return false;
    }
    let mut i: usize = 0;
    while i < a.len()
        invariant
            a@.len() == b@.len(),
            i <= a@.len(),
            forall|j: int| 0 <= j < i ==> a@[j] == b@[j],
        decreases a@.len() - i,
    {
        if a[i] != b[i] {
            return false;
        }
        i = i + 1;
    }
    proof {
        assert(a@ =~= b@);
    }
    true
}

/// Splitting a character sequence on a separator, from position `i`,
/// with `cur` the piece read so far and `acc` the pieces already complete.
/// Mirrors the behaviour of splitting a string: the trailing piece is kept
/// even when it is empty, so the empty input yields one empty piece.
pub open spec fn split_scan(s: Seq<char>, i: int, cur: Seq<char>, acc: Seq<Seq<char>>, sep: char) -> Seq<Seq<char>>
    decreases s.len() - i,
{
    if i < 0 || i >= s.len() {
        acc.push(cur)
    } else if s[i] == sep {
        split_scan(s, i + 1, Seq::empty(), acc.push(cur), sep)
    } else {
        split_scan(s, i + 1, cur.push(s[i]), acc, sep)
    }
}

/// The pieces of `s` between occurrences of `sep`.
pub open spec fn split_chars(s: Seq<char>, sep: char) -> Seq<Seq<char>> {
    split_scan(s, 0, Seq::empty(), Seq::empty(), sep)
}

/// Splits a vector of characters on a separator character.
pub fn split_on(s: &Vec<char>, sep: char) -> (r: Vec<Vec<char>>)
    ensures
        r.deep_view() == split_chars(s@, sep),
{
    let mut acc: Vec<Vec<char>> = Vec::new();
    let mut cur: Vec<char> = Vec::new();
    proof {
        assert(acc.deep_view() =~~= Seq::<Seq<char>>::empty());
    }
    let mut i: usize = 0;
    while i < s.len()
        invariant
            i <= s@.len(),
            split_chars(s@, sep) == split_scan(s@, i as int, cur@, acc.deep_view(), sep),
        decreases s@.len() - i,
    {
        if s[i] == sep {
            let ghost old_acc = acc.deep_view();
            let ghost old_cur = cur@;
            acc.push(cur);
            cur = Vec::new();
            proof {
                assert(acc.deep_view() =~~= old_acc.push(old_cur));
            }
        } else {
            cur.push(s[i]);
        }
        i = i + 1;
    }
    let ghost old_acc = acc.deep_view();
    let ghost old_cur = cur@;
    acc.push(cur);
    proof {
        assert(acc.deep_view() =~~= old_acc.push(old_cur));
    }
    acc
}

/// The pieces already complete stay a prefix of the final split, which adds
/// at least one more piece after them.
pub proof fn lemma_split_scan_prefix(s: Seq<char>, i: int, cur: Seq<char>, acc: Seq<Seq<char>>, sep: char)
    requires
        0 <= i,
    ensures
        split_scan(s, i, cur, acc, sep).len() > acc.len(),
        forall|j: int| 0 <= j < acc.len() ==> split_scan(s, i, cur, acc, sep)[j] == acc[j],
    decreases s.len() - i,
{
    if i >= s.len() {
    } else if s[i] == sep {
        lemma_split_scan_prefix(s, i + 1, Seq::empty(), acc.push(cur), sep);
        assert(split_scan(s, i, cur, acc, sep) == split_scan(s, i + 1, Seq::empty(), acc.push(cur), sep));
        assert forall|j: int| 0 <= j < acc.len() implies split_scan(s, i, cur, acc, sep)[j] == acc[j] by {
            assert(split_scan(s, i + 1, Seq::empty(), acc.push(cur), sep)[j] == acc.push(cur)[j]);
        }
    } else {
        lemma_split_scan_prefix(s, i + 1, cur.push(s[i]), acc, sep);
        assert(split_scan(s, i, cur, acc, sep) == split_scan(s, i + 1, cur.push(s[i]), acc, sep));
        assert forall|j: int| 0 <= j < acc.len() implies split_scan(s, i, cur, acc, sep)[j] == acc[j] by {
            assert(split_scan(s, i + 1, cur.push(s[i]), acc, sep)[j] == acc[j]);
        }
    }
}

/// LAW (leading-dot filenames): splitting a text that starts with the
/// separator yields an empty first piece and at least one piece after it;
/// for a filename split on dots, the empty first segment is skipped and the
/// second becomes the name.
pub proof fn lemma_split_leading_sep(s: Seq<char>, sep: char)
    requires
        s.len() > 0,
        s[0] == sep,
    ensures
        split_chars(s, sep).len() >= 2,
        split_chars(s, sep)[0].len() == 0,
{
    assert(split_chars(s, sep) == split_scan(s, 1, Seq::empty(), seq![Seq::<char>::empty()], sep));
    lemma_split_scan_prefix(s, 1, Seq::empty(), seq![Seq::<char>::empty()], sep);
    assert(split_scan(s, 1, Seq::empty(), seq![Seq::<char>::empty()], sep)[0]
        == seq![Seq::<char>::empty()][0]);
}

/// `s` without its leading underscore characters.
pub open spec fn trim_start_underscores(s: Seq<char>) -> Seq<char>
    decreases s.len(),
{
    if s.len() > 0 && s[0] == '_' {
        trim_start_underscores(s.drop_first())
    } else {
        s
    }
}

/// `s` without its trailing underscore characters.
pub open spec fn trim_end_underscores(s: Seq<char>) -> Seq<char>
    decreases s.len(),
{
    if s.len() > 0 && s.last() == '_' {
        trim_end_underscores(s.drop_last())
    } else {
        s
    }
}

/// `s` without enclosing underscore characters on either side.
pub open spec fn trim_underscores(s: Seq<char>) -> Seq<char> {
    trim_end_underscores(trim_start_underscores(s))
}

proof fn lemma_trim_start_subrange(s: Seq<char>, j: int)
    requires
        0 <= j <= s.len(),
        forall|k: int| 0 <= k < j ==> s[k] == '_',
        j == s.len() || s[j] != '_',
    ensures
        trim_start_underscores(s) == s.subrange(j, s.len() as int),
    decreases j,
{
    if j == 0 {
        assert(s.subrange(0, s.len() as int) =~= s);
    } else {
        assert(s[0] == '_');
        let t = s.drop_first();
        lemma_trim_start_subrange(t, j - 1);
        assert(t.subrange(j - 1, t.len() as int) =~= s.subrange(j, s.len() as int));
    }
}

proof fn lemma_trim_end_subrange(s: Seq<char>, j: int)
    requires
        0 <= j <= s.len(),
        forall|k: int| j <= k < s.len() ==> s[k] == '_',
        j == 0 || s[j - 1] != '_',
    ensures
        trim_end_underscores(s) == s.subrange(0, j),
    decreases s.len() - j,
{
    if j == s.len() {
        assert(s.subrange(0, j) =~= s);
    } else {
        assert(s.last() == '_');
        let t = s.drop_last();
        lemma_trim_end_subrange(t, j);
        assert(t.subrange(0, j) =~= s.subrange(0, j));
    }
}

/// Removes enclosing underscores from a vector of characters.
pub fn trim_underscores_exec(s: &Vec<char>) -> (r: Vec<char>)
    ensures
        r@ == trim_underscores(s@),
{
    let mut lo: usize = 0;
    while lo < s.len() && s[lo] == '_'
        invariant
            lo <= s@.len(),
            forall|k: int| 0 <= k < lo ==> s@[k] == '_',
        decreases s@.len() - lo,
    {
        lo = lo + 1;
    }
    proof {
        lemma_trim_start_subrange(s@, lo as int);
    }
    let ghost t = trim_start_underscores(s@);
    let mut hi: usize = s.len();
    while hi > lo && s[hi - 1] == '_'
        invariant
            lo <= hi <= s@.len(),
            t == s@.subrange(lo as int, s@.len() as int),
            forall|k: int| hi <= k < s@.len() ==> s@[k] == '_',
        decreases hi,
    {
        hi = hi - 1;
    }
    proof {
        assert(forall|k: int| (hi - lo) <= k < t.len() ==> t[k] == '_');
        assert(hi > lo ==> t[hi - lo - 1] == s@[hi - 1]);
        lemma_trim_end_subrange(t, hi - lo);
    }
    let mut r: Vec<char> = Vec::new();
    let mut i: usize = lo;
    while i < hi
        invariant
            lo <= i <= hi <= s@.len(),
            r@ == s@.subrange(lo as int, i as int),
        decreases hi - i,
    {
        r.push(s[i]);
        proof {
            assert(r@ =~= s@.subrange(lo as int, i + 1 as int));
        }
        i = i + 1;
    }
    proof {
        assert(t.subrange(0, hi - lo) =~= s@.subrange(lo as int, hi as int));
    }
    r
}

/// The first position at or after `i` where `pat` occurs in `s`.
pub open spec fn find_from(s: Seq<char>, pat: Seq<char>, i: int) -> Option<int>
    decreases s.len() - i,
{
    if i < 0 || i + pat.len() > s.len() {
        None
    } else if pat.len() == 0 {
        Some(i)
    } else if s.subrange(i, i + pat.len() as int) == pat {
        Some(i)
    } else {
        find_from(s, pat, i + 1)
    }
}

/// `s` with the first occurrence of `pat` (if any) replaced by `repl`.
pub open spec fn replace_first(s: Seq<char>, pat: Seq<char>, repl: Seq<char>) -> Seq<char> {
    match find_from(s, pat, 0) {
        Option::None => s,
        Option::Some(i) => s.subrange(0, i) + repl + s.subrange(i + pat.len() as int, s.len() as int),
    }
}

/// Whether `pat` occurs at position `i` of `s`.
fn matches_at(s: &Vec<char>, pat: &Vec<char>, i: usize) -> (r: bool)
    requires
        i + pat@.len() <= s@.len(),
    ensures
        r == (s@.subrange(i as int, i + pat@.len() as int) == pat@),
{
    let sn: usize = s.len();
    let mut j: usize = 0;
    while j < pat.len()
        invariant
            sn == s@.len(),
            i + pat@.len() <= s@.len(),
            j <= pat@.len(),
            forall|k: int| 0 <= k < j ==> s@[i + k] == pat@[k],
        decreases pat@.len() - j,
    {
        if s[i + j] != pat[j] {
            proof {
                assert(s@.subrange(i as int, i + pat@.len() as int)[j as int] == s@[i + j]);
            }
            return false;
        }
        j = j + 1;
    }
    proof {
        assert(s@.subrange(i as int, i + pat@.len() as int) =~= pat@);
    }
    true
}

/// Replaces the first occurrence of `pat` in `s` by `repl`; `s` is returned
/// unchanged when `pat` does not occur.
pub fn replace_first_exec(s: &Vec<char>, pat: &Vec<char>, repl: &Vec<char>) -> (r: Vec<char>)
    ensures
        r@ == replace_first(s@, pat@, repl@),
{
    let mut found: Option<usize> = Option::None;
    if pat.len() <= s.len() {
        let bound: usize = s.len() - pat.len();
        let mut i: usize = 0;
        while i <= bound
            invariant_except_break
                pat@.len() <= s@.len(),
                bound == s@.len() - pat@.len(),
                i <= bound + 1,
                found is None,
                find_from(s@, pat@, 0) == find_from(s@, pat@, i as int),
            ensures
                match found {
                    Option::None => find_from(s@, pat@, 0) is None,
                    Option::Some(p) => find_from(s@, pat@, 0) == Some(p as int)
                        && p + pat@.len() <= s@.len()
                        && s@.subrange(p as int, p + pat@.len() as int) == pat@,
                },
            decreases bound + 1 - i,
        {
            if matches_at(s, pat, i) {
                found = Option::Some(i);
                proof {
                    assert(find_from(s@, pat@, i as int) == Some(i as int));
                }
                break;
            }
            proof {
                if pat@.len() == 0 {
                    assert(s@.subrange(i as int, i + pat@.len() as int) =~= pat@);
                }
            }
            if i == bound {
                proof {
                    assert(find_from(s@, pat@, i + 1) is None);
                    assert(find_from(s@, pat@, i as int) is None);
                }
                break;
            }
            i = i + 1;
        }
    } else {
        proof {
            assert(find_from(s@, pat@, 0) is None);
        }
    }
    match found {
        Option::None => {
            let mut r: Vec<char> = Vec::new();
            let mut k: usize = 0;
            while k < s.len()
                invariant
                    k <= s@.len(),
                    r@ == s@.subrange(0, k as int),
                decreases s@.len() - k,
            {
                r.push(s[k]);
                proof {
                    assert(r@ =~= s@.subrange(0, k + 1 as int));
                }
                k = k + 1;
            }
            proof {
                assert(r@ =~= s@);
            }
            r
        },
        Option::Some(p) => {
            let mut r: Vec<char> = Vec::new();
            let mut k: usize = 0;
            while k < p
                invariant
                    k <= p <= s@.len(),
                    r@ == s@.subrange(0, k as int),
                decreases p - k,
            {
                r.push(s[k]);
                proof {
                    assert(r@ =~= s@.subrange(0, k + 1 as int));
                }
                k = k + 1;
            }
            let mut k2: usize = 0;
            while k2 < repl.len()
                invariant
                    k2 <= repl@.len(),
                    p <= s@.len(),
                    r@ == s@.subrange(0, p as int) + repl@.subrange(0, k2 as int),
                decreases repl@.len() - k2,
            {
                r.push(repl[k2]);
                proof {
                    assert(r@ =~= s@.subrange(0, p as int) + repl@.subrange(0, k2 + 1 as int));
                }
                k2 = k2 + 1;
            }
            let mut k3: usize = p + pat.len();
            while k3 < s.len()
                invariant
                    p + pat@.len() <= k3 <= s@.len(),
                    r@ == s@.subrange(0, p as int) + repl@.subrange(0, repl@.len() as int)
                        + s@.subrange(p + pat@.len() as int, k3 as int),
                decreases s@.len() - k3,
            {
                r.push(s[k3]);
                proof {
                    assert(r@ =~= s@.subrange(0, p as int) + repl@.subrange(0, repl@.len() as int)
                        + s@.subrange(p + pat@.len() as int, k3 + 1 as int));
                }
                k3 = k3 + 1;
            }
            proof {
                assert(find_from(s@, pat@, p as int) == Some(p as int));
                assert(repl@.subrange(0, repl@.len() as int) =~= repl@);
                assert(r@ =~= replace_first(s@, pat@, repl@));
            }
            r
        },
    }
}

/// The parts joined left to right with `sep` between consecutive parts.
pub open spec fn join_from(parts: Seq<Seq<char>>, i: int, sep: Seq<char>) -> Seq<char>
    decreases parts.len() - i,
{
    if i < 0 || i >= parts.len() {
        Seq::empty()
    } else if i == parts.len() - 1 {
        parts[i]
    } else {
        parts[i] + sep + join_from(parts, i + 1, sep)
    }
}

/// Whether one of the pieces equals `x`, character for character.
pub fn contains_chars(v: &Vec<Vec<char>>, x: &Vec<char>) -> (r: bool)
    ensures
        r == v.deep_view().contains(x@),
{
    let ghost dv = v.deep_view();
    proof {
        assert(dv.len() == v@.len());
    }
    let mut j: usize = 0;
    while j < v.len()
        invariant
            dv == v.deep_view(),
            dv.len() == v@.len(),
            j <= dv.len(),
            forall|j2: int| 0 <= j2 < j ==> dv[j2] != x@,
        decreases dv.len() - j,
    {
        let same = chars_eq(&v[j], x);
        proof {
            assert(dv[j as int] == v@[j as int]@);
        }
        if same {
            proof {
                assert(dv[j as int] == x@);
            }
            return true;
        }
        j = j + 1;
    }
    proof {
        assert(!dv.contains(x@));
    }
    false
}

/// The pieces from position `i` on, kept once each: a piece equal to an
/// earlier-kept one is dropped.
pub open spec fn dedup_scan(xs: Seq<Seq<char>>, i: int, acc: Seq<Seq<char>>) -> Seq<Seq<char>>
    decreases xs.len() - i,
{
    if i < 0 || i >= xs.len() {
        acc
    } else if acc.contains(xs[i]) {
        dedup_scan(xs, i + 1, acc)
    } else {
        dedup_scan(xs, i + 1, acc.push(xs[i]))
    }
}

/// The pieces kept once each, first occurrences first.
pub open spec fn dedup_chars(xs: Seq<Seq<char>>) -> Seq<Seq<char>> {
    dedup_scan(xs, 0, Seq::empty())
}

/// Removes duplicate pieces, keeping the first occurrence of each.
pub fn dedup_exec(xs: &Vec<Vec<char>>) -> (r: Vec<Vec<char>>)
    ensures
        r.deep_view() == dedup_chars(xs.deep_view()),
{
    let ghost xv = xs.deep_view();
    let mut r: Vec<Vec<char>> = Vec::new();
    proof {
        assert(r.deep_view() =~~= Seq::<Seq<char>>::empty());
    }
    let mut i: usize = 0;
    while i < xs.len()
        invariant
            xv == xs.deep_view(),
            xv.len() == xs@.len(),
            i <= xv.len(),
            dedup_chars(xv) == dedup_scan(xv, i as int, r.deep_view()),
        decreases xv.len() - i,
    {
        let ghost before = r.deep_view();
        let piece = &xs[i];
        proof {
            assert(piece@ == xv[i as int]);
        }
        if !contains_chars(&r, piece) {
            let mut copy: Vec<char> = Vec::new();
            push_all(&mut copy, piece);
            r.push(copy);
            proof {
                assert(r.deep_view() =~~= before.push(xv[i as int]));
            }
        }
        i = i + 1;
    }
    r
}

/// Appends every character of `src` at the end of `dst`.
pub fn push_all(dst: &mut Vec<char>, src: &Vec<char>)
    ensures
        final(dst)@ == old(dst)@ + src@,
{
    let ghost base = dst@;
    let mut k: usize = 0;
    while k < src.len()
        invariant
            k <= src@.len(),
            dst@ == base + src@.subrange(0, k as int),
        decreases src@.len() - k,
    {
        dst.push(src[k]);
        proof {
            assert(dst@ =~= base + src@.subrange(0, k + 1 as int));
        }
        k = k + 1;
    }
    proof {
        assert(dst@ =~= base + src@);
    }
}

/// Joins parts with a separator sequence between consecutive parts.
pub fn join_with(parts: &Vec<Vec<char>>, sep: &Vec<char>) -> (r: Vec<char>)
    ensures
        r@ == join_from(parts.deep_view(), 0, sep@),
{
    let ghost pv = parts.deep_view();
    proof {
        assert(pv.len() == parts@.len());
    }
    let mut r: Vec<char> = Vec::new();
    let mut i: usize = 0;
    while i < parts.len()
        invariant
            pv == parts.deep_view(),
            pv.len() == parts@.len(),
            i <= pv.len(),
            i == 0 ==> r@ == Seq::<char>::empty(),
            0 < i < pv.len() ==> r@ + sep@ + join_from(pv, i as int, sep@) == join_from(pv, 0, sep@),
            i > 0 && i == pv.len() ==> r@ == join_from(pv, 0, sep@),
        decreases pv.len() - i,
    {
        let ghost before = r@;
        if i > 0 {
            push_all(&mut r, sep);
        }
        push_all(&mut r, &parts[i]);
        proof {
            assert(parts@[i as int]@ == pv[i as int]);
            if i == 0 {
                if i + 1 < pv.len() {
                    assert(r@ + sep@ + join_from(pv, 1, sep@) =~= join_from(pv, 0, sep@));
                } else {
                    assert(r@ =~= pv[0]);
                }
            } else {
                assert(r@ =~= before + sep@ + pv[i as int]);
                if i + 1 < pv.len() {
                    assert(join_from(pv, i as int, sep@) == pv[i as int] + sep@ + join_from(pv, i + 1, sep@));
                    assert(r@ + sep@ + join_from(pv, i + 1, sep@)
                        =~= before + sep@ + join_from(pv, i as int, sep@));
                } else {
                    assert(join_from(pv, i as int, sep@) == pv[i as int]);
                    assert(r@ =~= before + sep@ + join_from(pv, i as int, sep@));
                }
            }
        }
        i = i + 1;
    }
    proof {
        if pv.len() == 0 {
            assert(r@ =~= join_from(pv, 0, sep@));
        }
    }
    r
}

} // verus!
