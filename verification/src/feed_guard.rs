//! Which fetched feed documents are handed to the feed parser.
//!
//! feed-rs reads Media RSS `start`, `end` and `time` attributes and the text of
//! iTunes `duration` elements with a `\d+` pattern and then
//! `parse::<u64>().unwrap()`. A run of Unicode digits that are not ASCII, or an
//! ASCII run too long for `u64`, makes it panic. Those readers are reached only
//! under the namespace URIs `http://search.yahoo.com/mrss/` and
//! `http://www.itunes.com/dtds/podcast-1.0.dtd`, and the attribute and element
//! names are written out in the document, so a byte-level test rules the panics
//! out:
//!
//! - no NUL byte (which every UTF-16 text with ASCII in it has) and no ESC byte
//!   (ISO-2022-JP's escapes), so that in every encoding the parser decodes, an
//!   ASCII character of the decoded text is the same byte in the document and a
//!   byte below 128 is an ASCII character;
//! - with `mrss` in the document, every `start`, `end` or `time` written as an
//!   attribute name has a quoted value of plain text;
//! - with `itunes` in the document, every `duration` written as an element name
//!   (after `<` or a prefix's `:`) has, between the end of its start tag and the
//!   next `<`, plain text followed by a closing tag.
//!
//! Plain text is ASCII without `&` (so no character reference can bring in another
//! digit) and without a run of 15 ASCII digits (14 digits times 3600 still fit a
//! `u64`).

use vstd::prelude::*;

verus! {

/// `pat` occurs in `b` at `i`.
pub open spec fn bytes_at(b: Seq<u8>, i: int, pat: Seq<u8>) -> bool {
    0 <= i && i + pat.len() <= b.len() && b.subrange(i, i + pat.len()) == pat
}

pub open spec fn has_bytes(b: Seq<u8>, pat: Seq<u8>) -> bool {
    exists|i: int| #[trigger] bytes_at(b, i, pat)
}

/// XML white space.
pub open spec fn is_xml_space(c: u8) -> bool {
    c == 32 || c == 9 || c == 13 || c == 10
}

/// A byte that would continue a name: ASCII letters and digits, `.`, `-`, `_`,
/// `:`, and every byte outside ASCII.
pub open spec fn is_name_byte(c: u8) -> bool {
    (97 <= c && c <= 122) || (65 <= c && c <= 90) || (48 <= c && c <= 57) || c == 46 || c == 45
        || c == 95 || c == 58 || c >= 128
}

pub open spec fn is_digit(c: u8) -> bool {
    48 <= c && c <= 57
}

/// The first position at or after `j` that is not XML white space.
pub open spec fn skip_spaces(b: Seq<u8>, j: int) -> int
    decreases b.len() - j,
{
    if 0 <= j < b.len() && is_xml_space(b[j]) {
        skip_spaces(b, j + 1)
    } else {
        j
    }
}

/// The first position at or after `from` holding `c`.
pub open spec fn find_byte(b: Seq<u8>, c: u8, from: int) -> Option<int>
    decreases b.len() - from,
{
    if from < 0 || from >= b.len() {
        None
    } else if b[from] == c {
        Some(from)
    } else {
        find_byte(b, c, from + 1)
    }
}

/// Fifteen ASCII digits start at `i`.
pub open spec fn digit_run_at(b: Seq<u8>, i: int) -> bool {
    0 <= i && i + 15 <= b.len() && forall|m: int| i <= m < i + 15 ==> is_digit(b[m])
}

/// `b[j..k]` is plain text.
pub open spec fn plain_span(b: Seq<u8>, j: int, k: int) -> bool {
    &&& 0 <= j <= k <= b.len()
    &&& forall|m: int| j <= m < k ==> b[m] < 128 && b[m] != 38
    &&& forall|i: int| j <= i && i + 15 <= k ==> !#[trigger] digit_run_at(b, i)
}

/// `name` written at `i` as an attribute name, with its `=` after optional spaces.
pub open spec fn attr_name_at(b: Seq<u8>, i: int, name: Seq<u8>) -> bool {
    &&& bytes_at(b, i, name)
    &&& (i == 0 || !is_name_byte(b[i - 1]))
    &&& skip_spaces(b, i + name.len()) < b.len()
    &&& b[skip_spaces(b, i + name.len())] == 61
}

/// The attribute named at `i` has a quoted value of plain text.
pub open spec fn attr_value_plain(b: Seq<u8>, i: int, name: Seq<u8>) -> bool {
    let e = skip_spaces(b, i + name.len());
    let v = skip_spaces(b, e + 1);
    &&& 0 <= v < b.len()
    &&& (b[v] == 34 || b[v] == 39)
    &&& match find_byte(b, b[v], v + 1) {
        Some(w) => plain_span(b, v + 1, w),
        None => false,
    }
}

pub open spec fn timing_attr_ok(b: Seq<u8>, i: int, name: Seq<u8>) -> bool {
    attr_name_at(b, i, name) ==> attr_value_plain(b, i, name)
}

pub open spec fn timing_attrs_ok_at(b: Seq<u8>, i: int) -> bool {
    timing_attr_ok(b, i, start_name()) && timing_attr_ok(b, i, end_name()) && timing_attr_ok(
        b,
        i,
        time_name(),
    )
}

/// `duration` written at `i` as an element name.
pub open spec fn duration_name_at(b: Seq<u8>, i: int) -> bool {
    &&& bytes_at(b, i, duration_name())
    &&& i >= 1
    &&& (b[i - 1] == 60 || b[i - 1] == 58)
    &&& (i + 8 == b.len() || !is_name_byte(b[i + 8]))
}

/// The element named at `i` holds plain text and then a closing tag.
pub open spec fn duration_text_plain(b: Seq<u8>, i: int) -> bool {
    match find_byte(b, 62, i + 8) {
        Some(g) => match find_byte(b, 60, g + 1) {
            Some(p) => p + 1 < b.len() && b[p + 1] == 47 && plain_span(b, g + 1, p),
            None => false,
        },
        None => false,
    }
}

pub open spec fn duration_ok_at(b: Seq<u8>, i: int) -> bool {
    duration_name_at(b, i) ==> duration_text_plain(b, i)
}

pub open spec fn mrss() -> Seq<u8> {
    seq![109u8, 114u8, 115u8, 115u8]
}

pub open spec fn itunes() -> Seq<u8> {
    seq![105u8, 116u8, 117u8, 110u8, 101u8, 115u8]
}

pub open spec fn start_name() -> Seq<u8> {
    seq![115u8, 116u8, 97u8, 114u8, 116u8]
}

pub open spec fn end_name() -> Seq<u8> {
    seq![101u8, 110u8, 100u8]
}

pub open spec fn time_name() -> Seq<u8> {
    seq![116u8, 105u8, 109u8, 101u8]
}

pub open spec fn duration_name() -> Seq<u8> {
    seq![100u8, 117u8, 114u8, 97u8, 116u8, 105u8, 111u8, 110u8]
}

/// No NUL and no ESC byte.
pub open spec fn plain_bytes(b: Seq<u8>) -> bool {
    forall|i: int| 0 <= i < b.len() ==> b[i] != 0 && b[i] != 27
}

/// Every Media RSS timing attribute the document could carry has a plain value.
pub open spec fn media_timing_plain(b: Seq<u8>) -> bool {
    !has_bytes(b, mrss()) || forall|i: int| #[trigger] timing_attrs_ok_at(b, i)
}

/// Every iTunes duration the document could carry is plain text.
pub open spec fn itunes_duration_plain(b: Seq<u8>) -> bool {
    !has_bytes(b, itunes()) || forall|i: int| #[trigger] duration_ok_at(b, i)
}

/// The documents the feed parser is called on.
pub open spec fn parse_safe(b: Seq<u8>) -> bool {
    plain_bytes(b) && media_timing_plain(b) && itunes_duration_plain(b)
}

fn bytes_at_exec(b: &[u8], i: usize, pat: &Vec<u8>) -> (r: bool)
    ensures
        r == bytes_at(b@, i as int, pat@),
{
    if i > b.len() || pat.len() > b.len() - i {
        return false;
    }
    let mut k: usize = 0;
    while k < pat.len()
        invariant
            i + pat@.len() <= b.len(),
            k <= pat@.len(),
            forall|m: int| 0 <= m < k ==> b@[i + m] == pat@[m],
        decreases pat@.len() - k,
    {
        assert(i + k < b@.len());
        let idx: usize = i + k;
        if b[idx] != pat[k] {
            assert(b@.subrange(i as int, i + pat@.len())[k as int] != pat@[k as int]);
            return false;
        }
        k += 1;
    }
    assert(b@.subrange(i as int, i + pat@.len()) =~= pat@);
    true
}

fn has_bytes_exec(b: &[u8], pat: &Vec<u8>) -> (r: bool)
    requires
        pat@.len() > 0,
    ensures
        r == has_bytes(b@, pat@),
{
    let mut i: usize = 0;
    while i < b.len()
        invariant
            i <= b@.len(),
            pat@.len() > 0,
            forall|j: int| 0 <= j < i ==> !#[trigger] bytes_at(b@, j, pat@),
        decreases b@.len() - i,
    {
        if bytes_at_exec(b, i, pat) {
            return true;
        }
        i += 1;
    }
    assert forall|j: int| !#[trigger] bytes_at(b@, j, pat@) by {
        if 0 <= j < i {
        }
    }
    false
}

fn is_xml_space_exec(c: u8) -> (r: bool)
    ensures
        r == is_xml_space(c),
{
    c == 32 || c == 9 || c == 13 || c == 10
}

fn is_name_byte_exec(c: u8) -> (r: bool)
    ensures
        r == is_name_byte(c),
{
    (97 <= c && c <= 122) || (65 <= c && c <= 90) || (48 <= c && c <= 57) || c == 46 || c == 45
        || c == 95 || c == 58 || c >= 128
}

fn plain_bytes_exec(b: &[u8]) -> (r: bool)
    ensures
        r == plain_bytes(b@),
{
    let mut i: usize = 0;
    while i < b.len()
        invariant
            i <= b@.len(),
            forall|j: int| 0 <= j < i ==> b@[j] != 0 && b@[j] != 27,
        decreases b@.len() - i,
    {
        if b[i] == 0 || b[i] == 27 {
            return false;
        }
        i += 1;
    }
    true
}

fn skip_spaces_exec(b: &[u8], j: usize) -> (r: usize)
    requires
        j <= b@.len(),
    ensures
        r == skip_spaces(b@, j as int),
        j <= r <= b@.len(),
{
    let mut k: usize = j;
    while k < b.len() && is_xml_space_exec(b[k])
        invariant
            j <= k <= b@.len(),
            skip_spaces(b@, j as int) == skip_spaces(b@, k as int),
        decreases b@.len() - k,
    {
        k += 1;
    }
    k
}

fn find_byte_exec(b: &[u8], c: u8, from: usize) -> (r: Option<usize>)
    ensures
        r matches Some(i) ==> find_byte(b@, c, from as int) == Some(i as int) && from <= i < b@.len()
            && b@[i as int] == c,
        r is None ==> find_byte(b@, c, from as int) is None,
{
    let mut i: usize = from;
    while i < b.len()
        invariant
            from <= i,
            find_byte(b@, c, from as int) == find_byte(b@, c, i as int),
        decreases b@.len() - i,
    {
        if b[i] == c {
            return Some(i);
        }
        i += 1;
    }
    None
}

fn plain_span_exec(b: &[u8], j: usize, k: usize) -> (r: bool)
    requires
        j <= k <= b@.len(),
    ensures
        r == plain_span(b@, j as int, k as int),
{
    let mut m: usize = j;
    let mut run: usize = 0;
    while m < k
        invariant
            j <= m <= k <= b@.len(),
            run <= m - j,
            run < 15,
            forall|t: int| m - run <= t < m ==> is_digit(b@[t]),
            m - run == j || !is_digit(b@[m - run - 1]),
            forall|t: int| j <= t < m ==> b@[t] < 128 && b@[t] != 38,
            forall|i: int| j <= i && i + 15 <= m ==> !#[trigger] digit_run_at(b@, i),
        decreases k - m,
    {
        let c = b[m];
        if c >= 128 || c == 38 {
            return false;
        }
        if 48 <= c && c <= 57 {
            if run + 1 >= 15 {
                assert(digit_run_at(b@, m - 14));
                return false;
            }
            proof {
                assert forall|i: int| j <= i && i + 15 <= m + 1 implies !#[trigger] digit_run_at(b@, i) by {
                    if i + 15 == m + 1 {
                        assert(m - run - 1 >= i);
                        assert(!is_digit(b@[m - run - 1]));
                    }
                }
            }
            run = run + 1;
        } else {
            proof {
                assert forall|i: int| j <= i && i + 15 <= m + 1 implies !#[trigger] digit_run_at(b@, i) by {
                    if i + 15 == m + 1 {
                        assert(!is_digit(b@[m as int]));
                    }
                }
            }
            run = 0;
        }
        m += 1;
    }
    true
}

fn attr_name_at_exec(b: &[u8], i: usize, name: &Vec<u8>) -> (r: bool)
    requires
        i < b@.len(),
        name@.len() > 0,
    ensures
        r == attr_name_at(b@, i as int, name@),
{
    let bl: usize = b.len();
    assert(bl == b@.len());
    if !bytes_at_exec(b, i, name) {
        return false;
    }
    if i > 0 && is_name_byte_exec(b[i - 1]) {
        return false;
    }
    let e = skip_spaces_exec(b, i + name.len());
    e < b.len() && b[e] == 61
}

fn attr_value_plain_exec(b: &[u8], i: usize, name: &Vec<u8>) -> (r: bool)
    requires
        attr_name_at(b@, i as int, name@),
    ensures
        r == attr_value_plain(b@, i as int, name@),
{
    let bl: usize = b.len();
    assert(bl == b@.len());
    let e = skip_spaces_exec(b, i + name.len());
    let v = skip_spaces_exec(b, e + 1);
    if v >= b.len() {
        return false;
    }
    let q = b[v];
    if q != 34 && q != 39 {
        return false;
    }
    match find_byte_exec(b, q, v + 1) {
        Some(w) => plain_span_exec(b, v + 1, w),
        None => false,
    }
}

fn media_timing_plain_exec(b: &[u8]) -> (r: bool)
    ensures
        r == media_timing_plain(b@),
{
    let m = vec![109u8, 114u8, 115u8, 115u8];
    let s = vec![115u8, 116u8, 97u8, 114u8, 116u8];
    let e = vec![101u8, 110u8, 100u8];
    let t = vec![116u8, 105u8, 109u8, 101u8];
    assert(m@ =~= mrss());
    assert(s@ =~= start_name());
    assert(e@ =~= end_name());
    assert(t@ =~= time_name());
    if !has_bytes_exec(b, &m) {
        return true;
    }
    let mut i: usize = 0;
    while i < b.len()
        invariant
            i <= b@.len(),
            has_bytes(b@, mrss()),
            s@ == start_name(),
            e@ == end_name(),
            t@ == time_name(),
            forall|ii: int| 0 <= ii < i ==> #[trigger] timing_attrs_ok_at(b@, ii),
        decreases b@.len() - i,
    {
        if attr_name_at_exec(b, i, &s) && !attr_value_plain_exec(b, i, &s) {
            assert(!timing_attrs_ok_at(b@, i as int));
            return false;
        }
        if attr_name_at_exec(b, i, &e) && !attr_value_plain_exec(b, i, &e) {
            assert(!timing_attrs_ok_at(b@, i as int));
            return false;
        }
        if attr_name_at_exec(b, i, &t) && !attr_value_plain_exec(b, i, &t) {
            assert(!timing_attrs_ok_at(b@, i as int));
            return false;
        }
        assert(timing_attrs_ok_at(b@, i as int));
        i += 1;
    }
    assert forall|ii: int| #[trigger] timing_attrs_ok_at(b@, ii) by {
        if !(0 <= ii < i) {
            assert(!bytes_at(b@, ii, start_name()));
            assert(!bytes_at(b@, ii, end_name()));
            assert(!bytes_at(b@, ii, time_name()));
        }
    }
    true
}

fn duration_name_at_exec(b: &[u8], i: usize, d: &Vec<u8>) -> (r: bool)
    requires
        i < b@.len(),
        d@ == duration_name(),
    ensures
        r == duration_name_at(b@, i as int),
{
    let bl: usize = b.len();
    assert(bl == b@.len());
    if !bytes_at_exec(b, i, d) || i == 0 {
        return false;
    }
    if b[i - 1] != 60 && b[i - 1] != 58 {
        return false;
    }
    i + 8 == b.len() || !is_name_byte_exec(b[i + 8])
}

fn duration_text_plain_exec(b: &[u8], i: usize) -> (r: bool)
    requires
        duration_name_at(b@, i as int),
    ensures
        r == duration_text_plain(b@, i as int),
{
    let bl: usize = b.len();
    assert(bl == b@.len());
    match find_byte_exec(b, 62, i + 8) {
        Some(g) => match find_byte_exec(b, 60, g + 1) {
            Some(p) => p + 1 < b.len() && b[p + 1] == 47 && plain_span_exec(b, g + 1, p),
            None => false,
        },
        None => false,
    }
}

fn itunes_duration_plain_exec(b: &[u8]) -> (r: bool)
    ensures
        r == itunes_duration_plain(b@),
{
    let it = vec![105u8, 116u8, 117u8, 110u8, 101u8, 115u8];
    let d = vec![100u8, 117u8, 114u8, 97u8, 116u8, 105u8, 111u8, 110u8];
    assert(it@ =~= itunes());
    assert(d@ =~= duration_name());
    if !has_bytes_exec(b, &it) {
        return true;
    }
    let mut i: usize = 0;
    while i < b.len()
        invariant
            i <= b@.len(),
            has_bytes(b@, itunes()),
            d@ == duration_name(),
            forall|ii: int| 0 <= ii < i ==> #[trigger] duration_ok_at(b@, ii),
        decreases b@.len() - i,
    {
        if duration_name_at_exec(b, i, &d) && !duration_text_plain_exec(b, i) {
            assert(!duration_ok_at(b@, i as int));
            return false;
        }
        assert(duration_ok_at(b@, i as int));
        i += 1;
    }
    assert forall|ii: int| #[trigger] duration_ok_at(b@, ii) by {
        if !(0 <= ii < i) {
            assert(!bytes_at(b@, ii, duration_name()));
        }
    }
    true
}

/// Whether the feed parser may be called on the document.
pub fn is_parse_safe(b: &[u8]) -> (r: bool)
    ensures
        r == parse_safe(b@),
{
    plain_bytes_exec(b) && media_timing_plain_exec(b) && itunes_duration_plain_exec(b)
}

} // verus!
