//! The counter record model: the fixed schema of one counter reading, the
//! decode rule for its value text with the "not counted" sentinel and the
//! truncate-at-period policy, and substring matching of event names
//! against a caller-supplied filter.

use vstd::prelude::*;
use crate::ascii::{is_digit, digit_value, is_digit_byte, PERIOD};
use crate::PerfError;

verus! {

/// One performance-counter reading. Numeric texts are kept as the raw
/// bytes the export delivered; decoding happens at aggregation time.
#[derive(Debug)]
pub struct PerfStatRecord {
    /// A decimal number as text, or the "not counted" sentinel.
    pub counter_value: Vec<u8>,
    /// The unit the counter is reported in.
    pub unit: Vec<u8>,
    /// A slash-delimited counter identifier, matched by substring
    /// containment against event filters.
    pub event: Vec<u8>,
    /// The variance of the reading as decimal text, where the export
    /// supplies one.
    pub variance: Option<Vec<u8>>,
    /// How long the event was measured.
    pub event_runtime: u64,
    /// The share of time the counter ran, as decimal text.
    pub pcnt_running: Vec<u8>,
    /// A derived metric as decimal text.
    pub metric_value: Vec<u8>,
    /// The unit of the derived metric.
    pub metric_unit: Vec<u8>,
}

/// The bytes of the "not counted" sentinel text that the export writes in
/// place of a value when the hardware did not populate a counter.
pub open spec fn not_counted() -> Seq<u8> {
    seq![60u8, 110u8, 111u8, 116u8, 32u8, 99u8, 111u8, 117u8, 110u8, 116u8, 101u8, 100u8, 62u8]
}

/// Whether every byte of `s` is a decimal digit.
pub open spec fn all_digits(s: Seq<u8>) -> bool {
    forall|i: int| 0 <= i < s.len() ==> is_digit(#[trigger] s[i])
}

/// The numeric value of a digit string, most significant digit first.
pub open spec fn digits_value(s: Seq<u8>) -> nat
    decreases s.len(),
{
    if s.len() == 0 {
        0
    } else {
        digits_value(s.drop_last()) * 10 + digit_value(s.last())
    }
}

/// The position of the first period of `s`, or the length of `s` where it
/// has none.
pub open spec fn dot_cut(s: Seq<u8>) -> int
    decreases s.len(),
{
    if s.len() == 0 {
        0
    } else if s[0] == PERIOD {
        0
    } else {
        1 + dot_cut(s.drop_first())
    }
}

/// The text of `s` up to but excluding its first period.
pub open spec fn truncated(s: Seq<u8>) -> Seq<u8> {
    s.take(dot_cut(s))
}

/// A scan that stopped at the first period found `dot_cut`.
pub proof fn lemma_dot_cut_of_scan(s: Seq<u8>, d: int)
    requires
        0 <= d <= s.len(),
        forall|k: int| 0 <= k < d ==> #[trigger] s[k] != PERIOD,
        d < s.len() ==> s[d] == PERIOD,
    ensures
        dot_cut(s) == d,
    decreases s.len(),
{
    if d == 0 {
    } else {
        assert(s[0] != PERIOD);
        let t = s.drop_first();
        assert(forall|k: int| 0 <= k < d - 1 ==> #[trigger] t[k] != PERIOD);
        lemma_dot_cut_of_scan(t, d - 1);
    }
}

/// What a plain value text decodes to: the text is truncated at its first
/// period and the remaining digits are read as an unsigned integer, so a
/// fractional part is cut off, never rounded. The decode fails where the
/// truncated text is empty, holds a byte that is no digit, or exceeds the
/// machine word.
pub open spec fn decode_digits(s: Seq<u8>) -> Option<nat> {
    let t = truncated(s);
    if t.len() > 0 && all_digits(t) && digits_value(t) <= u64::MAX {
        Some(digits_value(t))
    } else {
        None
    }
}

/// What a counter value text decodes to: the sentinel contributes zero;
/// any other text is decoded by the truncation rule.
pub open spec fn decode_counter(s: Seq<u8>) -> Option<nat> {
    if s == not_counted() {
        Some(0)
    } else {
        decode_digits(s)
    }
}

/// A counter value that holds the "not counted" sentinel always decodes,
/// and contributes exactly zero: it can never raise a parse error.
pub proof fn lemma_sentinel_decodes_to_zero(s: Seq<u8>)
    requires
        s == not_counted(),
    ensures
        decode_counter(s) == Some(0nat),
{
}

/// Whether `s` holds the "not counted" sentinel.
pub fn is_not_counted(s: &Vec<u8>) -> (r: bool)
    ensures
        r == (s@ == not_counted()),
{
    if s.len() != 13 {
        return false;
    }
    let r = s[0] == 60 && s[1] == 110 && s[2] == 111 && s[3] == 116 && s[4] == 32 && s[5] == 99
        && s[6] == 111 && s[7] == 117 && s[8] == 110 && s[9] == 116 && s[10] == 101 && s[11] == 100
        && s[12] == 62;
    if r {
        assert(s@ =~= not_counted());
    }
    r
}

/// Decode a counter value text by the sentinel and truncation rules.
pub fn decode_counter_value(s: &Vec<u8>) -> (r: Result<u64, PerfError>)
    ensures
        r matches Ok(v) ==> decode_counter(s@) == Some(v as nat),
        r matches Err(e) ==> decode_counter(s@) is None && e == PerfError::ParseError,
{
    if is_not_counted(s) {
        return Ok(0);
    }
    parse_truncated(s)
}

/// Decode a plain value text by the truncation rule alone: truncate at the
/// first period and read the remaining digits as an unsigned integer.
pub fn parse_truncated(s: &Vec<u8>) -> (r: Result<u64, PerfError>)
    ensures
        r matches Ok(v) ==> decode_digits(s@) == Some(v as nat),
        r matches Err(e) ==> decode_digits(s@) is None && e == PerfError::ParseError,
{
    let n = s.len();
    let mut d: usize = 0;
    while d < n && s[d] != PERIOD
        invariant
            n == s@.len(),
            d <= n,
            forall|k: int| 0 <= k < d ==> #[trigger] s@[k] != PERIOD,
        decreases n - d,
    {
        d += 1;
    }
    proof {
        lemma_dot_cut_of_scan(s@, d as int);
    }
    if d == 0 {
        return Err(PerfError::ParseError);
    }
    let mut value: u64 = 0;
    let mut i: usize = 0;
    while i < d
        invariant
            n == s@.len(),
            0 < d <= n,
            i <= d,
            dot_cut(s@) == d,
            all_digits(s@.take(i as int)),
            value as nat == digits_value(s@.take(i as int)),
        decreases d - i,
    {
        let b = s[i];
        if !is_digit_byte(b) {
            proof {
                assert(truncated(s@)[i as int] == s@[i as int]);
            }
            return Err(PerfError::ParseError);
        }
        let digit = (b - 48) as u64;
        if value > (u64::MAX - digit) / 10 {
            proof {
                lemma_digits_value_overflow(s@, i as int);
            }
            return Err(PerfError::ParseError);
        }
        value = value * 10 + digit;
        assert(s@.take(i + 1).drop_last() =~= s@.take(i as int));
        i += 1;
    }
    assert(s@.take(d as int) == truncated(s@));
    Ok(value)
}

/// Once a digit prefix exceeds the machine word, the whole digit string
/// does: appending digits never shrinks the value.
proof fn lemma_digits_value_overflow(s: Seq<u8>, i: int)
    requires
        0 <= i < dot_cut(s) <= s.len(),
        all_digits(s.take(i)),
        is_digit(s[i]),
        digits_value(s.take(i)) * 10 + digit_value(s[i]) > u64::MAX,
    ensures
        all_digits(truncated(s)) ==> digits_value(truncated(s)) > u64::MAX,
    decreases dot_cut(s) - i,
{
    assert(s.take(i + 1).drop_last() =~= s.take(i));
    assert(digits_value(s.take(i + 1)) > u64::MAX);
    if all_digits(truncated(s)) {
        lemma_digits_value_grows(s, i + 1, dot_cut(s));
    }
}

/// A longer digit prefix never has a smaller value.
proof fn lemma_digits_value_grows(s: Seq<u8>, i: int, j: int)
    requires
        0 <= i <= j <= s.len(),
        all_digits(s.take(j)),
    ensures
        digits_value(s.take(i)) <= digits_value(s.take(j)),
    decreases j - i,
{
    if i < j {
        lemma_digits_value_grows(s, i, j - 1);
        assert(s.take(j).drop_last() =~= s.take(j - 1));
        assert(all_digits(s.take(j - 1)));
        assert(digits_value(s.take(j)) == digits_value(s.take(j - 1)) * 10 + digit_value(
            s.take(j).last(),
        ));
        assert(digits_value(s.take(j - 1)) * 10 >= digits_value(s.take(j - 1)));
    }
}

/// Whether `n` occurs in `h` starting at position `i`.
pub open spec fn is_match_at(h: Seq<u8>, n: Seq<u8>, i: int) -> bool {
    0 <= i && i + n.len() <= h.len() && h.subrange(i, i + n.len()) == n
}

/// Whether `n` occurs somewhere in `h`: substring containment, the rule by
/// which event identifiers are matched against a filter.
pub open spec fn contains_seq(h: Seq<u8>, n: Seq<u8>) -> bool {
    exists|i: int| is_match_at(h, n, i)
}

/// Whether `needle` occurs as a contiguous run of bytes inside `hay`.
pub fn contains_subslice(hay: &Vec<u8>, needle: &Vec<u8>) -> (r: bool)
    ensures
        r == contains_seq(hay@, needle@),
{
    let hn = hay.len();
    let nn = needle.len();
    if nn > hn {
        assert(forall|i: int| !is_match_at(hay@, needle@, i));
        return false;
    }
    if nn == 0 {
        assert(is_match_at(hay@, needle@, 0)) by {
            assert(hay@.subrange(0, 0) =~= needle@);
        }
        return true;
    }
    let mut i: usize = 0;
    while i <= hn - nn
        invariant
            hn == hay@.len(),
            nn == needle@.len(),
            0 < nn <= hn,
            i <= hn - nn + 1,
            forall|k: int| 0 <= k < i ==> !#[trigger] is_match_at(hay@, needle@, k),
        decreases hn + 1 - i,
    {
        let mut j: usize = 0;
        let mut matched = true;
        while j < nn
            invariant
                hn == hay@.len(),
                nn == needle@.len(),
                i + nn <= hn,
                j <= nn,
                matched ==> forall|k: int| 0 <= k < j ==> hay@[i + k] == #[trigger] needle@[k],
                !matched ==> !is_match_at(hay@, needle@, i as int),
            decreases nn - j,
        {
            if hay[i + j] != needle[j] {
                assert(!is_match_at(hay@, needle@, i as int)) by {
                    if is_match_at(hay@, needle@, i as int) {
                        assert(hay@.subrange(i as int, i + nn)[j as int] == needle@[j as int]);
                    }
                }
                matched = false;
                j = nn;
            } else {
                j += 1;
            }
        }
        if matched {
            assert(is_match_at(hay@, needle@, i as int)) by {
                assert(hay@.subrange(i as int, i + nn) =~= needle@);
            }
            return true;
        }
        i += 1;
    }
    assert forall|k: int| !is_match_at(hay@, needle@, k) by {
        if is_match_at(hay@, needle@, k) {
            assert(0 <= k < i);
        }
    }
    false
}

/// Whether two byte strings hold the same bytes.
pub fn bytes_eq(a: &Vec<u8>, b: &Vec<u8>) -> (r: bool)
    ensures
        r == (a@ == b@),
{
    let n = a.len();
    if n != b.len() {
        return false;
    }
    let mut i: usize = 0;
    while i < n
        invariant
            n == a@.len(),
            n == b@.len(),
            i <= n,
            forall|k: int| 0 <= k < i ==> a@[k] == #[trigger] b@[k],
        decreases n - i,
    {
        if a[i] != b[i] {
            return false;
        }
        i += 1;
    }
    assert(a@ =~= b@);
    true
}

/// A fresh copy of a byte string.
pub fn clone_bytes(v: &Vec<u8>) -> (r: Vec<u8>)
    ensures
        r@ == v@,
{
    let n = v.len();
    let mut out: Vec<u8> = Vec::new();
    let mut i: usize = 0;
    while i < n
        invariant
            n == v@.len(),
            i <= n,
            out@ == v@.take(i as int),
        decreases n - i,
    {
        out.push(v[i]);
        assert(out@ =~= v@.take(i + 1));
        i += 1;
    }
    assert(v@.take(n as int) =~= v@);
    out
}

} // verus!
