//! Decimal integers in text: `i64` parsing with the rules of `str::parse::<i64>`
//! and the decimal rendering `i64` has under `Display`.

use vstd::prelude::*;

verus! {

pub open spec fn is_digit(c: char) -> bool {
    '0' <= c && c <= '9'
}

pub open spec fn digit_value(c: char) -> int {
    (c as int) - ('0' as int)
}

pub open spec fn all_digits(s: Seq<char>) -> bool {
    forall|i: int| 0 <= i < s.len() ==> is_digit(s[i])
}

/// The value of a string of decimal digits.
pub open spec fn digits_value(s: Seq<char>) -> int
    decreases s.len(),
{
    if s.len() == 0 {
        0
    } else {
        digits_value(s.drop_last()) * 10 + digit_value(s.last())
    }
}

/// `str::parse::<i64>`: an optional `+` or `-`, then at least one ASCII digit and
/// nothing else, with a value in range.
pub open spec fn spec_parse_i64(s: Seq<char>) -> Option<i64> {
    if s.len() == 0 {
        None
    } else {
        let neg = s[0] == '-';
        let ds = if s[0] == '-' || s[0] == '+' {
            s.skip(1)
        } else {
            s
        };
        if ds.len() == 0 || !all_digits(ds) {
            None
        } else {
            let v = if neg {
                -digits_value(ds)
            } else {
                digits_value(ds)
            };
            if i64::MIN <= v && v <= i64::MAX {
                Some(v as i64)
            } else {
                None
            }
        }
    }
}

proof fn lemma_digits_value_nonneg(s: Seq<char>)
    requires
        all_digits(s),
    ensures
        digits_value(s) >= 0,
    decreases s.len(),
{
    if s.len() > 0 {
        lemma_digits_value_nonneg(s.drop_last());
    }
}

proof fn lemma_digits_value_grows(s: Seq<char>, k: int)
    requires
        all_digits(s),
        0 <= k <= s.len(),
    ensures
        digits_value(s) >= digits_value(s.take(k)),
    decreases s.len(),
{
    if k == s.len() {
        assert(s.take(k) =~= s);
    } else {
        lemma_digits_value_grows(s.drop_last(), k);
        lemma_digits_value_nonneg(s.drop_last());
        assert(s.drop_last().take(k) =~= s.take(k));
    }
}

/// Parses a decimal `i64` as `str::parse::<i64>` does.
pub fn parse_i64(v: &Vec<char>) -> (r: Option<i64>)
    ensures
        r == spec_parse_i64(v@),
{
    if v.len() == 0 {
        return None;
    }
    let neg = v[0] == '-';
    let start: usize = if v[0] == '-' || v[0] == '+' { 1 } else { 0 };
    let ghost ds = v@.skip(start as int);
    assert(v@.skip(0) =~= v@);
    if start == v.len() {
        assert(ds.len() == 0);
        return None;
    }
    // magnitude limit: 2^63 for negative numbers, 2^63 - 1 otherwise
    let limit: u64 = if neg { 9223372036854775808u64 } else { 9223372036854775807u64 };
    let mut acc: u64 = 0;
    let mut i: usize = start;
    while i < v.len()
        invariant
            start <= i <= v.len(),
            ds == v@.skip(start as int),
            v@.len() > 0,
            neg == (v@[0] == '-'),
            start == (if v@[0] == '-' || v@[0] == '+' { 1usize } else { 0usize }),
            ds == (if v@[0] == '-' || v@[0] == '+' { v@.skip(1) } else { v@ }),
            ds.len() > 0,
            all_digits(v@.subrange(start as int, i as int)),
            acc as int == digits_value(v@.subrange(start as int, i as int)),
            acc <= limit,
            limit == if neg { 9223372036854775808u64 } else { 9223372036854775807u64 },
        decreases v.len() - i,
    {
        let c = v[i];
        if !('0' <= c && c <= '9') {
            assert(ds[i - start] == c);
            assert(!all_digits(ds));
            return None;
        }
        let d: u64 = (c as u32 - '0' as u32) as u64;
        let ghost pre = v@.subrange(start as int, i as int);
        let ghost post = v@.subrange(start as int, i + 1);
        assert(post.drop_last() =~= pre);
        if acc > (limit - d) / 10 {
            // the prefix value already exceeds the limit; so does any digit string it starts
            proof {
                assert(digits_value(post) == acc * 10 + d);
                assert(digits_value(post) > limit) by (nonlinear_arith)
                    requires
                        acc > (limit - d) / 10,
                        digits_value(post) == acc * 10 + d,
                        d <= 9,
                        d <= limit,
                ;
                if all_digits(ds) {
                    lemma_digits_value_grows(ds, i + 1 - start);
                    assert(ds.take(i + 1 - start) =~= post);
                    assert(digits_value(ds) > limit);
                }
            }
            return None;
        }
        assert(acc * 10 + d <= limit) by (nonlinear_arith)
            requires
                acc <= (limit - d) / 10,
                d <= 9,
                d <= limit,
        ;
        acc = acc * 10 + d;
        i += 1;
    }
    assert(v@.subrange(start as int, v.len() as int) =~= ds);
    if neg {
        if acc == 9223372036854775808u64 {
            Some(i64::MIN)
        } else {
            let a: i64 = acc as i64;
            Some(-a)
        }
    } else {
        Some(acc as i64)
    }
}

pub fn parse_i64_str(s: &str) -> (r: Option<i64>)
    ensures
        r == spec_parse_i64(s@),
{
    parse_i64(&crate::text::chars_of(s))
}

// ---------------------------------------------------------------------------
// rendering
// ---------------------------------------------------------------------------

pub open spec fn digit_char(d: int) -> char {
    (('0' as int) + d) as char
}

/// Decimal digits of `n` without leading zeros.
pub open spec fn decimal(n: nat) -> Seq<char>
    decreases n,
{
    if n < 10 {
        seq![digit_char(n as int)]
    } else {
        decimal(n / 10).push(digit_char((n % 10) as int))
    }
}

/// How `i64` displays: a `-` before the digits of negative numbers.
pub open spec fn spec_format_i64(n: i64) -> Seq<char> {
    if n < 0 {
        seq!['-'] + decimal((-n) as nat)
    } else {
        decimal(n as nat)
    }
}

pub fn format_i64(n: i64) -> (r: Vec<char>)
    ensures
        r@ == spec_format_i64(n),
{
    let neg = n < 0;
    let mut m: u64 = if n == i64::MIN {
        9223372036854775808u64
    } else if neg {
        (-n) as u64
    } else {
        n as u64
    };
    let ghost mag: nat = m as nat;
    // digits are produced least significant first
    let mut rev: Vec<char> = Vec::new();
    assert(rev@.reverse() =~= Seq::<char>::empty());
    assert(decimal(mag) =~= decimal(m as nat) + rev@.reverse());
    while m >= 10
        invariant
            mag == if n < 0 { (-n) as nat } else { n as nat },
            decimal(mag) == decimal(m as nat) + rev@.reverse(),
        decreases m,
    {
        let d: u64 = m % 10;
        let c: char = ((d as u8) + 48u8) as char;
        let ghost old_m = m as nat;
        let ghost old_rev = rev@;
        rev.push(c);
        m = m / 10;
        proof {
            assert(c == digit_char(d as int));
            assert(rev@.reverse() =~= seq![c] + old_rev.reverse());
            assert(decimal(old_m) =~= decimal(m as nat).push(c));
            assert(decimal(mag) =~= decimal(m as nat) + rev@.reverse());
        }
    }
    let c: char = ((m as u8) + 48u8) as char;
    let ghost old_rev = rev@;
    rev.push(c);
    proof {
        assert(c == digit_char(m as int));
        assert(decimal(m as nat) =~= seq![c]);
        assert(rev@.reverse() =~= seq![c] + old_rev.reverse());
    }
    let mut out: Vec<char> = Vec::new();
    if neg {
        out.push('-');
    }
    let mut k: usize = rev.len();
    assert(rev@.reverse().take(0) =~= Seq::<char>::empty());
    assert(out@ =~= (if neg { seq!['-'] } else { Seq::<char>::empty() }) + rev@.reverse().take(0));
    while k > 0
        invariant
            k <= rev@.len(),
            out@ == (if neg { seq!['-'] } else { Seq::<char>::empty() }) + rev@.reverse().take(rev@.len() - k),
        decreases k,
    {
        k -= 1;
        out.push(rev[k]);
        proof {
            let r = rev@.reverse();
            assert(r[rev@.len() - 1 - k] == rev@[k as int]);
            assert(r.take(rev@.len() - k) =~= r.take(rev@.len() - k - 1).push(rev@[k as int]));
        }
    }
    proof {
        assert(rev@.reverse().take(rev@.len() as int) =~= rev@.reverse());
        assert(decimal(mag) =~= rev@.reverse());
    }
    out
}

proof fn lemma_digit_char(d: int)
    requires
        0 <= d < 10,
    ensures
        is_digit(digit_char(d)),
        digit_value(digit_char(d)) == d,
{
}

proof fn lemma_decimal_digits(n: nat)
    ensures
        all_digits(decimal(n)),
        decimal(n).len() > 0,
        digits_value(decimal(n)) == n,
    decreases n,
{
    lemma_digit_char((n % 10) as int);
    if n < 10 {
        let s = decimal(n);
        assert(s.drop_last() =~= Seq::<char>::empty());
        assert(digits_value(s.drop_last()) == 0);
        assert(n % 10 == n);
    } else {
        lemma_decimal_digits(n / 10);
        let s = decimal(n);
        assert(s.drop_last() =~= decimal(n / 10));
        assert forall|i: int| 0 <= i < s.len() implies is_digit(s[i]) by {
            if i < s.len() - 1 {
                assert(s[i] == decimal(n / 10)[i]);
            }
        }
        assert(n == (n / 10) * 10 + n % 10);
    }
}

/// Parsing the decimal rendering of any `i64` gives the number back.
pub proof fn lemma_parse_format_roundtrip(n: i64)
    ensures
        spec_parse_i64(spec_format_i64(n)) == Some(n),
{
    let s = spec_format_i64(n);
    if n < 0 {
        lemma_decimal_digits((-n) as nat);
        assert(s.skip(1) =~= decimal((-n) as nat));
        assert(s[0] == '-');
    } else {
        lemma_decimal_digits(n as nat);
        assert(s[0] != '-' && s[0] != '+');
    }
}

} // verus!
