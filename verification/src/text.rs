//! Character-level text operations shared by the parsers of this crate.
//!
//! Text is modelled as `Seq<char>` (the view of `str` and `String`); the
//! executable functions work on `Vec<char>` and are tied to the spec functions
//! below by their contracts.

use vstd::prelude::*;

verus! {

// ---------------------------------------------------------------------------
// characters
// ---------------------------------------------------------------------------

/// The Unicode `White_Space` property, which `char::is_whitespace` tests.
pub open spec fn is_ws(c: char) -> bool {
    ||| ('\u{9}' <= c && c <= '\u{d}')
    ||| c == ' '
    ||| c == '\u{85}'
    ||| c == '\u{a0}'
    ||| c == '\u{1680}'
    ||| ('\u{2000}' <= c && c <= '\u{200a}')
    ||| c == '\u{2028}'
    ||| c == '\u{2029}'
    ||| c == '\u{202f}'
    ||| c == '\u{205f}'
    ||| c == '\u{3000}'
}

pub fn is_whitespace(c: char) -> (r: bool)
    ensures
        r == is_ws(c),
{
    ('\u{9}' <= c && c <= '\u{d}') || c == ' ' || c == '\u{85}' || c == '\u{a0}' || c
        == '\u{1680}' || ('\u{2000}' <= c && c <= '\u{200a}') || c == '\u{2028}' || c
        == '\u{2029}' || c == '\u{202f}' || c == '\u{205f}' || c == '\u{3000}'
}

/// ASCII case folding of one character (`char::to_ascii_lowercase`).
pub open spec fn ascii_lower(c: char) -> char {
    if 'A' <= c && c <= 'Z' {
        ((c as u32) + 32) as char
    } else {
        c
    }
}

pub fn lower_char(c: char) -> (r: char)
    ensures
        r == ascii_lower(c),
{
    if 'A' <= c && c <= 'Z' {
        let b: u8 = (c as u32 + 32) as u8;
        b as char
    } else {
        c
    }
}

pub open spec fn lower_seq(s: Seq<char>) -> Seq<char> {
    s.map_values(|c: char| ascii_lower(c))
}

pub fn lower_vec(v: &Vec<char>) -> (r: Vec<char>)
    ensures
        r@ == lower_seq(v@),
{
    let mut out: Vec<char> = Vec::new();
    let mut i: usize = 0;
    while i < v.len()
        invariant
            i <= v.len(),
            out@ == lower_seq(v@.take(i as int)),
        decreases v.len() - i,
    {
        let c = lower_char(v[i]);
        out.push(c);
        i += 1;
        assert(lower_seq(v@.take(i as int)) =~= lower_seq(v@.take(i - 1)).push(c));
    }
    assert(v@.take(v.len() as int) =~= v@);
    out
}

// ---------------------------------------------------------------------------
// conversions between str / String and character vectors
// ---------------------------------------------------------------------------

pub fn chars_of(s: &str) -> (r: Vec<char>)
    ensures
        r@ == s@,
{
    let mut out: Vec<char> = Vec::new();
    for c in it: s.chars()
        invariant
            out@ == it.seq().take(it.index() as int),
    {
        out.push(c);
    }
    proof {
        broadcast use vstd::string::group_string_axioms;

        assert(out@ =~= s@);
    }
    out
}

/// `String::from_iter` over the characters: the string holding exactly these
/// characters, in order.
#[verifier::external_body]
pub(crate) fn string_from_chars(v: &Vec<char>) -> (r: String)
    ensures
        r@ == v@,
{
    String::from_iter(v)
}

pub fn copy_chars(v: &Vec<char>) -> (r: Vec<char>)
    ensures
        r@ == v@,
{
    let mut out: Vec<char> = Vec::new();
    let mut i: usize = 0;
    while i < v.len()
        invariant
            i <= v.len(),
            out@ == v@.take(i as int),
        decreases v.len() - i,
    {
        out.push(v[i]);
        i += 1;
        assert(out@ =~= v@.take(i as int));
    }
    assert(v@.take(v.len() as int) =~= v@);
    out
}

/// Appends `src[from..to]` to `out`.
pub fn append_range(out: &mut Vec<char>, src: &Vec<char>, from: usize, to: usize)
    requires
        from <= to <= src.len(),
    ensures
        final(out)@ == old(out)@ + src@.subrange(from as int, to as int),
{
    let mut i: usize = from;
    while i < to
        invariant
            from <= i <= to <= src.len(),
            out@ == old(out)@ + src@.subrange(from as int, i as int),
        decreases to - i,
    {
        out.push(src[i]);
        i += 1;
        assert(out@ =~= old(out)@ + src@.subrange(from as int, i as int));
    }
}

pub fn append_all(out: &mut Vec<char>, src: &Vec<char>)
    ensures
        final(out)@ == old(out)@ + src@,
{
    append_range(out, src, 0, src.len());
    assert(src@.subrange(0, src@.len() as int) =~= src@);
}

pub fn subrange_vec(src: &Vec<char>, from: usize, to: usize) -> (r: Vec<char>)
    requires
        from <= to <= src.len(),
    ensures
        r@ == src@.subrange(from as int, to as int),
{
    let mut out: Vec<char> = Vec::new();
    append_range(&mut out, src, from, to);
    assert(out@ =~= src@.subrange(from as int, to as int));
    out
}

pub fn take_chars(src: &Vec<char>, n: usize) -> (r: Vec<char>)
    ensures
        r@ == src@.take(if n < src@.len() { n as int } else { src@.len() as int }),
{
    let end = if n < src.len() { n } else { src.len() };
    let r = subrange_vec(src, 0, end);
    assert(r@ =~= src@.take(end as int));
    r
}

pub fn seq_eq(a: &Vec<char>, b: &Vec<char>) -> (r: bool)
    ensures
        r == (a@ == b@),
{
    if a.len() != b.len() {
        return false;
    }
    let mut i: usize = 0;
    while i < a.len()
        invariant
            i <= a.len() == b.len(),
            a@.take(i as int) == b@.take(i as int),
        decreases a.len() - i,
    {
        if a[i] != b[i] {
            assert(a@[i as int] != b@[i as int]);
            return false;
        }
        i += 1;
        assert(a@.take(i as int) =~= a@.take(i - 1).push(a@[i - 1]));
        assert(b@.take(i as int) =~= b@.take(i - 1).push(b@[i - 1]));
    }
    assert(a@ =~= a@.take(a.len() as int));
    assert(b@ =~= b@.take(b.len() as int));
    true
}

// ---------------------------------------------------------------------------
// searching
// ---------------------------------------------------------------------------

/// `pat` occurs in `hay` starting at index `i`.
pub open spec fn matches_at(hay: Seq<char>, pat: Seq<char>, i: int) -> bool {
    0 <= i && i + pat.len() <= hay.len() && hay.subrange(i, i + pat.len()) == pat
}

/// The first index `>= from` at which `pat` occurs in `hay` (`str::find` on `hay[from..]`,
/// shifted by `from`).
pub open spec fn find_from(hay: Seq<char>, pat: Seq<char>, from: int) -> Option<int>
    decreases hay.len() + 1 - from,
{
    if from < 0 || from + pat.len() > hay.len() {
        None
    } else if matches_at(hay, pat, from) {
        Some(from)
    } else {
        find_from(hay, pat, from + 1)
    }
}

pub proof fn lemma_find_from_bounds(hay: Seq<char>, pat: Seq<char>, from: int)
    requires
        0 <= from,
    ensures
        find_from(hay, pat, from) matches Some(i) ==> from <= i && matches_at(hay, pat, i),
        find_from(hay, pat, from) matches Some(i) ==> forall|j: int|
            from <= j < i ==> !matches_at(hay, pat, j),
        find_from(hay, pat, from) is None ==> forall|j: int|
            from <= j ==> !matches_at(hay, pat, j),
    decreases hay.len() + 1 - from,
{
    if from < 0 || from + pat.len() > hay.len() {
    } else if matches_at(hay, pat, from) {
    } else {
        lemma_find_from_bounds(hay, pat, from + 1);
    }
}

fn matches_at_exec(hay: &Vec<char>, pat: &Vec<char>, i: usize) -> (r: bool)
    requires
        i <= hay.len(),
    ensures
        r == matches_at(hay@, pat@, i as int),
{
    if pat.len() > hay.len() - i {
        return false;
    }
    let mut k: usize = 0;
    while k < pat.len()
        invariant
            i + pat.len() <= hay.len(),
            k <= pat.len(),
            hay@.subrange(i as int, i + k) == pat@.take(k as int),
        decreases pat.len() - k,
    {
        if hay[i + k] != pat[k] {
            assert(hay@.subrange(i as int, i + pat.len())[k as int] != pat@[k as int]);
            return false;
        }
        k += 1;
        assert(hay@.subrange(i as int, i + k) =~= hay@.subrange(i as int, i + k - 1).push(
            hay@[i + k - 1],
        ));
        assert(pat@.take(k as int) =~= pat@.take(k - 1).push(pat@[k - 1]));
    }
    assert(pat@.take(pat.len() as int) =~= pat@);
    true
}

pub fn find_vec(hay: &Vec<char>, pat: &Vec<char>, from: usize) -> (r: Option<usize>)
    ensures
        r matches Some(i) ==> find_from(hay@, pat@, from as int) == Some(i as int),
        r is None ==> find_from(hay@, pat@, from as int) is None,
{
    if from > hay.len() {
        return None;
    }
    let mut i: usize = from;
    loop
        invariant
            from <= i <= hay.len(),
            find_from(hay@, pat@, from as int) == find_from(hay@, pat@, i as int),
        decreases hay.len() - i,
    {
        if pat.len() > hay.len() - i {
            return None;
        }
        if pat.len() == 0 {
            assert(hay@.subrange(i as int, i as int) =~= pat@);
            return Some(i);
        }
        if matches_at_exec(hay, pat, i) {
            return Some(i);
        }
        i += 1;
    }
}

/// The first index `>= from` holding `c`.
pub open spec fn find_char_from(s: Seq<char>, c: char, from: int) -> Option<int>
    decreases s.len() - from,
{
    if from < 0 || from >= s.len() {
        None
    } else if s[from] == c {
        Some(from)
    } else {
        find_char_from(s, c, from + 1)
    }
}

pub proof fn lemma_find_char_from(s: Seq<char>, c: char, from: int)
    requires
        0 <= from,
    ensures
        find_char_from(s, c, from) matches Some(i) ==> from <= i < s.len() && s[i] == c
            && forall|j: int| from <= j < i ==> s[j] != c,
        find_char_from(s, c, from) is None ==> forall|j: int| from <= j < s.len() ==> s[j] != c,
    decreases s.len() - from,
{
    if from < 0 || from >= s.len() {
    } else if s[from] == c {
    } else {
        lemma_find_char_from(s, c, from + 1);
    }
}

pub fn find_char(v: &Vec<char>, c: char, from: usize) -> (r: Option<usize>)
    ensures
        r matches Some(i) ==> find_char_from(v@, c, from as int) == Some(i as int),
        r is None ==> find_char_from(v@, c, from as int) is None,
{
    let mut i: usize = from;
    while i < v.len()
        invariant
            from <= i,
            find_char_from(v@, c, from as int) == find_char_from(v@, c, i as int),
        decreases v.len() - i,
    {
        if v[i] == c {
            return Some(i);
        }
        i += 1;
    }
    None
}

/// The last index holding `c` (`str::rfind` for one character).
pub open spec fn rfind_char_before(s: Seq<char>, c: char, end: int) -> Option<int>
    decreases end,
{
    if end <= 0 || end > s.len() {
        None
    } else if s[end - 1] == c {
        Some(end - 1)
    } else {
        rfind_char_before(s, c, end - 1)
    }
}

pub proof fn lemma_rfind_char(s: Seq<char>, c: char, end: int)
    requires
        0 <= end <= s.len(),
    ensures
        rfind_char_before(s, c, end) matches Some(i) ==> 0 <= i < end && s[i] == c
            && forall|j: int| i < j < end ==> s[j] != c,
        rfind_char_before(s, c, end) is None ==> forall|j: int| 0 <= j < end ==> s[j] != c,
    decreases end,
{
    if end <= 0 {
    } else if s[end - 1] == c {
    } else {
        lemma_rfind_char(s, c, end - 1);
    }
}

pub fn rfind_char(v: &Vec<char>, c: char) -> (r: Option<usize>)
    ensures
        r matches Some(i) ==> rfind_char_before(v@, c, v@.len() as int) == Some(i as int),
        r is None ==> rfind_char_before(v@, c, v@.len() as int) is None,
{
    let mut end: usize = v.len();
    while end > 0
        invariant
            end <= v.len(),
            rfind_char_before(v@, c, v@.len() as int) == rfind_char_before(v@, c, end as int),
        decreases end,
    {
        if v[end - 1] == c {
            return Some(end - 1);
        }
        end -= 1;
    }
    None
}

pub open spec fn starts_with(s: Seq<char>, prefix: Seq<char>) -> bool {
    prefix.len() <= s.len() && s.take(prefix.len() as int) == prefix
}

pub fn starts_with_vec(s: &Vec<char>, prefix: &Vec<char>) -> (r: bool)
    ensures
        r == starts_with(s@, prefix@),
{
    let r = matches_at_exec(s, prefix, 0);
    assert(s@.take(prefix@.len() as int) =~= s@.subrange(0, prefix@.len() as int));
    r
}

// ---------------------------------------------------------------------------
// replacing
// ---------------------------------------------------------------------------

/// `str::replace(pat, rep)`: every non-overlapping occurrence of `pat`, scanning
/// from the left, is replaced by `rep`.
pub open spec fn replace_all(s: Seq<char>, pat: Seq<char>, rep: Seq<char>) -> Seq<char>
    recommends
        pat.len() > 0,
    decreases s.len(),
{
    if s.len() == 0 || pat.len() == 0 {
        s
    } else if starts_with(s, pat) {
        rep + replace_all(s.skip(pat.len() as int), pat, rep)
    } else {
        seq![s[0]] + replace_all(s.skip(1), pat, rep)
    }
}

pub fn replace_vec(s: &Vec<char>, pat: &Vec<char>, rep: &Vec<char>) -> (r: Vec<char>)
    requires
        pat.len() > 0,
    ensures
        r@ == replace_all(s@, pat@, rep@),
{
    let mut out: Vec<char> = Vec::new();
    let mut i: usize = 0;
    assert(s@.skip(0) =~= s@);
    while i < s.len()
        invariant
            i <= s.len(),
            pat.len() > 0,
            out@ + replace_all(s@.skip(i as int), pat@, rep@) == replace_all(s@, pat@, rep@),
        decreases s.len() - i,
    {
        let ghost rest = s@.skip(i as int);
        if matches_at_exec(s, pat, i) {
            assert(rest.take(pat@.len() as int) =~= s@.subrange(i as int, i + pat@.len()));
            assert(rest.skip(pat@.len() as int) =~= s@.skip(i + pat@.len()));
            append_all(&mut out, rep);
            i += pat.len();
            assert(out@ + replace_all(s@.skip(i as int), pat@, rep@) =~= replace_all(
                s@,
                pat@,
                rep@,
            ));
        } else {
            assert(!starts_with(rest, pat@)) by {
                if starts_with(rest, pat@) {
                    assert(rest.take(pat@.len() as int) =~= s@.subrange(
                        i as int,
                        i + pat@.len(),
                    ));
                }
            }
            assert(rest.skip(1) =~= s@.skip(i + 1));
            out.push(s[i]);
            i += 1;
            assert(out@ + replace_all(s@.skip(i as int), pat@, rep@) =~= replace_all(
                s@,
                pat@,
                rep@,
            ));
        }
    }
    assert(s@.skip(s.len() as int) =~= Seq::<char>::empty());
    assert(out@ =~= out@ + replace_all(s@.skip(s.len() as int), pat@, rep@));
    out
}

/// `replace_vec` with literal pattern and replacement.
pub fn replace_str(s: &Vec<char>, pat: &str, rep: &str) -> (r: Vec<char>)
    requires
        pat@.len() > 0,
    ensures
        r@ == replace_all(s@, pat@, rep@),
{
    let p = chars_of(pat);
    let q = chars_of(rep);
    replace_vec(s, &p, &q)
}

// ---------------------------------------------------------------------------
// trimming, words, joining
// ---------------------------------------------------------------------------

/// `str::trim_start`.
pub open spec fn trim_start(s: Seq<char>) -> Seq<char>
    decreases s.len(),
{
    if s.len() > 0 && is_ws(s[0]) {
        trim_start(s.skip(1))
    } else {
        s
    }
}

/// `str::trim_end`.
pub open spec fn trim_end(s: Seq<char>) -> Seq<char>
    decreases s.len(),
{
    if s.len() > 0 && is_ws(s.last()) {
        trim_end(s.drop_last())
    } else {
        s
    }
}

/// `str::trim`.
pub open spec fn trim(s: Seq<char>) -> Seq<char> {
    trim_end(trim_start(s))
}

pub proof fn lemma_trim_start_index(s: Seq<char>, a: int)
    requires
        0 <= a <= s.len(),
        forall|j: int| 0 <= j < a ==> is_ws(s[j]),
        a == s.len() || !is_ws(s[a]),
    ensures
        trim_start(s) == s.skip(a),
    decreases a,
{
    if a == 0 {
        assert(s.skip(0) =~= s);
    } else {
        assert forall|j: int| 0 <= j < a - 1 implies is_ws(s.skip(1)[j]) by {
            assert(s.skip(1)[j] == s[j + 1]);
        }
        if a - 1 < s.skip(1).len() {
            assert(s.skip(1)[a - 1] == s[a]);
        }
        lemma_trim_start_index(s.skip(1), a - 1);
        assert(s.skip(1).skip(a - 1) =~= s.skip(a));
    }
}

pub proof fn lemma_trim_end_index(s: Seq<char>, b: int)
    requires
        0 <= b <= s.len(),
        forall|j: int| b <= j < s.len() ==> is_ws(s[j]),
        b == 0 || !is_ws(s[b - 1]),
    ensures
        trim_end(s) == s.take(b),
    decreases s.len() - b,
{
    if b == s.len() {
        assert(s.take(b) =~= s);
    } else {
        lemma_trim_end_index(s.drop_last(), b);
        assert(s.drop_last().take(b) =~= s.take(b));
    }
}

/// Index of the first non-whitespace character at or after `from`, or `v.len()`.
fn skip_ws_forward(v: &Vec<char>, from: usize) -> (r: usize)
    requires
        from <= v.len(),
    ensures
        from <= r <= v.len(),
        forall|j: int| from <= j < r ==> is_ws(v@[j]),
        r == v.len() || !is_ws(v@[r as int]),
{
    let mut i = from;
    while i < v.len() && is_whitespace(v[i])
        invariant
            from <= i <= v.len(),
            forall|j: int| from <= j < i ==> is_ws(v@[j]),
        decreases v.len() - i,
    {
        i += 1;
    }
    i
}

pub fn trim_vec(v: &Vec<char>) -> (r: Vec<char>)
    ensures
        r@ == trim(v@),
{
    let a = skip_ws_forward(v, 0);
    let mut b = v.len();
    while b > a && is_whitespace(v[b - 1])
        invariant
            a <= b <= v.len(),
            forall|j: int| b <= j < v.len() ==> is_ws(v@[j]),
        decreases b,
    {
        b -= 1;
    }
    proof {
        lemma_trim_start_index(v@, a as int);
        let t = v@.skip(a as int);
        assert forall|j: int| b - a <= j < t.len() implies is_ws(t[j]) by {
            assert(t[j] == v@[j + a]);
        }
        if b > a {
            assert(t[b - a - 1] == v@[b - 1]);
        }
        lemma_trim_end_index(t, b - a);
        assert(t.take(b - a) =~= v@.subrange(a as int, b as int));
    }
    subrange_vec(v, a, b)
}

pub proof fn lemma_trim_empty_iff_blank(s: Seq<char>)
    ensures
        trim(s).len() == 0 <==> forall|j: int| 0 <= j < s.len() ==> is_ws(s[j]),
{
    let a = choose_first_non_ws(s);
    lemma_trim_start_index(s, a);
    let t = s.skip(a);
    if a == s.len() {
        assert(t.len() == 0);
        lemma_trim_end_index(t, 0);
    } else {
        let b = last_non_ws_end(t);
        lemma_trim_end_index(t, b);
        assert(t[0] == s[a]);
        assert(b >= 1);
    }
}

spec fn first_non_ws_from(s: Seq<char>, i: int) -> int
    decreases s.len() - i,
{
    if i < 0 || i >= s.len() {
        s.len() as int
    } else if !is_ws(s[i]) {
        i
    } else {
        first_non_ws_from(s, i + 1)
    }
}

proof fn lemma_first_non_ws_from(s: Seq<char>, i: int)
    requires
        0 <= i <= s.len(),
    ensures
        i <= first_non_ws_from(s, i) <= s.len(),
        forall|j: int| i <= j < first_non_ws_from(s, i) ==> is_ws(s[j]),
        first_non_ws_from(s, i) == s.len() || !is_ws(s[first_non_ws_from(s, i)]),
    decreases s.len() - i,
{
    if i < s.len() && is_ws(s[i]) {
        lemma_first_non_ws_from(s, i + 1);
    }
}

proof fn choose_first_non_ws(s: Seq<char>) -> (a: int)
    ensures
        0 <= a <= s.len(),
        forall|j: int| 0 <= j < a ==> is_ws(s[j]),
        a == s.len() || !is_ws(s[a]),
{
    lemma_first_non_ws_from(s, 0);
    first_non_ws_from(s, 0)
}

proof fn last_non_ws_end(t: Seq<char>) -> (b: int)
    ensures
        0 <= b <= t.len(),
        forall|j: int| b <= j < t.len() ==> is_ws(t[j]),
        b == 0 || !is_ws(t[b - 1]),
        t.len() > 0 && !is_ws(t[0]) ==> b >= 1,
    decreases t.len(),
{
    if t.len() == 0 {
        0
    } else if !is_ws(t.last()) {
        t.len() as int
    } else {
        let b = last_non_ws_end(t.drop_last());
        assert forall|j: int| b <= j < t.len() implies is_ws(t[j]) by {
            if j < t.len() - 1 {
                assert(t[j] == t.drop_last()[j]);
            }
        }
        if b > 0 {
            assert(t[b - 1] == t.drop_last()[b - 1]);
        }
        if t.len() > 1 && !is_ws(t[0]) {
            assert(t.drop_last()[0] == t[0]);
        }
        b
    }
}

/// Whether `trim(s)` is empty (`s.trim().is_empty()`).
pub fn is_blank(v: &Vec<char>) -> (r: bool)
    ensures
        r == (trim(v@).len() == 0),
{
    proof {
        lemma_trim_empty_iff_blank(v@);
    }
    let a = skip_ws_forward(v, 0);
    a == v.len()
}

/// `str::split_whitespace`: the maximal runs of non-whitespace characters.
pub open spec fn words(s: Seq<char>) -> Seq<Seq<char>>
    decreases s.len(),
{
    if s.len() == 0 {
        seq![]
    } else {
        let w = words(s.drop_last());
        let c = s.last();
        if is_ws(c) {
            w
        } else if s.len() >= 2 && !is_ws(s[s.len() - 2]) {
            w.update(w.len() - 1, w.last().push(c))
        } else {
            w.push(seq![c])
        }
    }
}

/// `split_whitespace` as vectors of characters.
pub fn split_ws(v: &Vec<char>) -> (r: Vec<Vec<char>>)
    ensures
        r@.map_values(|w: Vec<char>| w@) == words(v@),
{
    let mut done: Vec<Vec<char>> = Vec::new();
    let mut cur: Vec<char> = Vec::new();
    let mut in_word = false;
    let mut i: usize = 0;
    while i < v.len()
        invariant
            i <= v.len(),
            in_word == (i > 0 && !is_ws(v@[i - 1])),
            in_word ==> cur@.len() >= 1,
            !in_word ==> cur@.len() == 0,
            words(v@.take(i as int)) == if in_word {
                done@.map_values(|w: Vec<char>| w@).push(cur@)
            } else {
                done@.map_values(|w: Vec<char>| w@)
            },
        decreases v.len() - i,
    {
        let c = v[i];
        let ghost old_cur = cur@;
        let ghost old_done = done@.map_values(|w: Vec<char>| w@);
        let ghost pre = v@.take(i as int);
        let ghost post = v@.take(i + 1);
        assert(post.drop_last() =~= pre);
        assert(post.last() == c);
        if is_whitespace(c) {
            if in_word {
                let w = cur;
                cur = Vec::new();
                done.push(w);
                assert(done@.map_values(|w: Vec<char>| w@) =~= old_map_push(done@));
            }
            in_word = false;
        } else {
            if i >= 1 {
                assert(post[post.len() - 2] == v@[i - 1]);
            }
            cur.push(c);
            in_word = true;
        }
        i += 1;
        proof {
            if !is_ws(c) {
                assert(done@.map_values(|w: Vec<char>| w@) =~= old_done);
                if i >= 2 && !is_ws(v@[i - 2]) {
                    let w = words(pre);
                    assert(w =~= old_done.push(old_cur));
                    assert(words(post) =~= old_done.push(old_cur.push(c)));
                } else {
                    assert(old_cur =~= Seq::<char>::empty());
                    assert(words(post) =~= old_done.push(seq![c]));
                }
                assert(cur@ =~= old_cur.push(c));
            }
        }
    }
    if in_word {
        done.push(cur);
    }
    assert(v@.take(v.len() as int) =~= v@);
    assert(done@.map_values(|w: Vec<char>| w@) =~= words(v@));
    done
}

spec fn old_map_push(d: Seq<Vec<char>>) -> Seq<Seq<char>> {
    d.map_values(|w: Vec<char>| w@)
}

/// Joins `list` with `sep` between neighbouring elements (`[..].join(sep)`).
pub open spec fn seq_join(list: Seq<Seq<char>>, sep: Seq<char>) -> Seq<char>
    decreases list.len(),
{
    if list.len() == 0 {
        seq![]
    } else if list.len() == 1 {
        list[0]
    } else {
        seq_join(list.drop_last(), sep) + sep + list.last()
    }
}

pub fn join_vec(list: &Vec<Vec<char>>, sep: &Vec<char>) -> (r: Vec<char>)
    ensures
        r@ == seq_join(list@.map_values(|w: Vec<char>| w@), sep@),
{
    let ghost m = list@.map_values(|w: Vec<char>| w@);
    let mut out: Vec<char> = Vec::new();
    let mut i: usize = 0;
    while i < list.len()
        invariant
            i <= list.len(),
            m == list@.map_values(|w: Vec<char>| w@),
            out@ == seq_join(m.take(i as int), sep@),
        decreases list.len() - i,
    {
        if i > 0 {
            append_all(&mut out, sep);
        }
        append_all(&mut out, &list[i]);
        i += 1;
        proof {
            let t = m.take(i as int);
            assert(t.drop_last() =~= m.take(i - 1));
            assert(t.last() == list@[i - 1]@);
            if i == 1 {
                assert(out@ =~= seq_join(t, sep@));
            }
        }
    }
    assert(m.take(list.len() as int) =~= m);
    out
}

// ---------------------------------------------------------------------------
// lines
// ---------------------------------------------------------------------------

/// `str::lines`: pieces between `\n` (a final `\n` ends the last piece instead of
/// starting an empty one), each without the `\r` of a `\r\n` ending.
pub open spec fn lines(s: Seq<char>) -> Seq<Seq<char>>
    decreases s.len(),
{
    if s.len() == 0 {
        seq![]
    } else {
        match find_char_from(s, '\n', 0) {
            None => seq![s],
            Some(i) => {
                let line = s.take(i);
                let line = if line.len() > 0 && line.last() == '\r' {
                    line.drop_last()
                } else {
                    line
                };
                proof {
                    lemma_find_char_from(s, '\n', 0);
                }
                seq![line] + lines(s.skip(i + 1))
            },
        }
    }
}

pub fn lines_vec(v: &Vec<char>) -> (r: Vec<Vec<char>>)
    ensures
        r@.map_values(|w: Vec<char>| w@) == lines(v@),
{
    let mut out: Vec<Vec<char>> = Vec::new();
    let mut pos: usize = 0;
    assert(v@.skip(0) =~= v@);
    assert(out@.map_values(|w: Vec<char>| w@) =~= Seq::<Seq<char>>::empty());
    while pos < v.len()
        invariant
            pos <= v.len(),
            out@.map_values(|w: Vec<char>| w@) + lines(v@.skip(pos as int)) == lines(v@),
        decreases v.len() - pos,
    {
        let ghost rest = v@.skip(pos as int);
        let ghost old_out = out@.map_values(|w: Vec<char>| w@);
        proof {
            lemma_find_char_from(v@, '\n', pos as int);
            lemma_find_char_from(rest, '\n', 0);
        }
        match find_char(v, '\n', pos) {
            None => {
                proof {
                    if let Some(k) = find_char_from(rest, '\n', 0) {
                        assert(v@[k + pos] == '\n');
                    }
                }
                let line = subrange_vec(v, pos, v.len());
                out.push(line);
                assert(out@.map_values(|w: Vec<char>| w@) =~= old_out.push(rest));
                assert(lines(rest) =~= seq![rest]);
                pos = v.len();
                assert(lines(v@.skip(pos as int)) =~= Seq::<Seq<char>>::empty());
                assert(old_out + seq![rest] =~= old_out.push(rest));
            },
            Some(i) => {
                proof {
                    assert(rest[i - pos] == '\n');
                    assert forall|j: int| 0 <= j < i - pos implies rest[j] != '\n' by {
                        assert(rest[j] == v@[j + pos]);
                    }
                    if let Some(k) = find_char_from(rest, '\n', 0) {
                        assert(v@[k + pos] == '\n');
                    }
                    assert(find_char_from(rest, '\n', 0) == Some(i - pos));
                }
                let end: usize = if i > pos && v[i - 1] == '\r' { i - 1 } else { i };
                let line = subrange_vec(v, pos, end);
                out.push(line);
                proof {
                    let l0 = rest.take(i - pos);
                    assert(l0 =~= v@.subrange(pos as int, i as int));
                    if i > pos {
                        assert(l0.last() == v@[i - 1]);
                    }
                    if end < i {
                        assert(l0.drop_last() =~= v@.subrange(pos as int, end as int));
                    }
                    assert(rest.skip(i - pos + 1) =~= v@.skip(i + 1));
                }
                pos = i + 1;
                assert(out@.map_values(|w: Vec<char>| w@) =~= old_out.push(line@));
                assert(old_out.push(line@) + lines(v@.skip(pos as int)) =~= old_out + (seq![line@] + lines(v@.skip(pos as int))));
            },
        }
    }
    assert(lines(v@.skip(v.len() as int)) =~= Seq::<Seq<char>>::empty()) by {
        assert(v@.skip(v.len() as int) =~= Seq::<char>::empty());
    }
    assert(out@.map_values(|w: Vec<char>| w@) =~= out@.map_values(|w: Vec<char>| w@) + Seq::<Seq<char>>::empty());
    out
}

// ---------------------------------------------------------------------------
// building strings
// ---------------------------------------------------------------------------

pub fn string_of(s: &str) -> (r: String)
    ensures
        r@ == s@,
{
    String::from_str(s)
}

pub fn push_str(out: &mut String, s: &str)
    ensures
        final(out)@ == old(out)@ + s@,
{
    out.append(s);
}

pub fn push_chars(out: &mut String, v: &Vec<char>)
    ensures
        final(out)@ == old(out)@ + v@,
{
    let s = string_from_chars(v);
    out.append(s.as_str());
}

} // verus!
