//! Repair of the raw counter export format: the export tool writes decimal
//! commas inside numbers and separates consecutive objects only by line
//! breaks, with no enclosing array. The repair rewrites decimal commas to
//! periods, turns line breaks into separators, strips a single trailing
//! separator and wraps the whole document in brackets, yielding a JSON
//! array literal.

use vstd::prelude::*;
use crate::ascii::{is_digit, COMMA, PERIOD, LINE_FEED, LEFT_BRACKET, RIGHT_BRACKET, DIGIT_ZERO,
    DIGIT_NINE};

verus! {

/// Whether position `i` of `s` holds a comma standing immediately between
/// two digits: a decimal comma of the raw number format.
pub open spec fn decimal_comma_at(s: Seq<u8>, i: int) -> bool {
    0 < i && i + 1 < s.len() && s[i] == COMMA && is_digit(s[i - 1]) && is_digit(s[i + 1])
}

/// The repaired byte at position `i` of `s`: a decimal comma becomes a
/// period, a line break becomes a separator comma, and every other byte
/// stays as it is.
pub open spec fn repair_byte(s: Seq<u8>, i: int) -> u8 {
    if decimal_comma_at(s, i) {
        PERIOD
    } else if s[i] == LINE_FEED {
        COMMA
    } else {
        s[i]
    }
}

/// The body of the repaired document: `s` rewritten byte for byte.
pub open spec fn repaired_body(s: Seq<u8>) -> Seq<u8> {
    Seq::new(s.len(), |i: int| repair_byte(s, i))
}

/// `s` with a single trailing separator comma removed, if one is there.
pub open spec fn strip_trailing_separator(s: Seq<u8>) -> Seq<u8> {
    if s.len() > 0 && s[s.len() - 1] == COMMA {
        s.drop_last()
    } else {
        s
    }
}

/// The whole repaired document: the rewritten body, stripped of a single
/// trailing separator and wrapped in brackets.
pub open spec fn repaired_doc(s: Seq<u8>) -> Seq<u8> {
    seq![LEFT_BRACKET] + strip_trailing_separator(repaired_body(s)) + seq![RIGHT_BRACKET]
}

/// Repair one raw export document into a JSON array literal.
///
/// The transform is purely textual: it rewrites every comma that stands
/// immediately between two digits to a period, turns every line break into
/// a separator comma, strips a single trailing separator and wraps the
/// result in brackets. It is not aware of thousands grouping: a grouped
/// integer is rewritten like a decimal number, a fixed assumption of the
/// source format.
pub fn clean_perf_stat_json(input: &Vec<u8>) -> (r: Vec<u8>)
    ensures
        r@ == repaired_doc(input@),
{
    let n = input.len();
    let mut out: Vec<u8> = Vec::new();
    out.push(LEFT_BRACKET);
    let mut i: usize = 0;
    while i < n
        invariant
            n == input@.len(),
            i <= n,
            out@ == seq![LEFT_BRACKET] + repaired_body(input@).take(i as int),
        decreases n - i,
    {
        let b = input[i];
        let c: u8 = if b == COMMA && 0 < i && i + 1 < n && DIGIT_ZERO <= input[i - 1]
            && input[i - 1] <= DIGIT_NINE && DIGIT_ZERO <= input[i + 1]
            && input[i + 1] <= DIGIT_NINE {
            PERIOD
        } else if b == LINE_FEED {
            COMMA
        } else {
            b
        };
        assert(c == repair_byte(input@, i as int));
        out.push(c);
        assert(out@ =~= seq![LEFT_BRACKET] + repaired_body(input@).take(i + 1));
        i += 1;
    }
    assert(repaired_body(input@).take(n as int) =~= repaired_body(input@));
    if out.len() > 1 && out[out.len() - 1] == COMMA {
        out.pop();
    }
    out.push(RIGHT_BRACKET);
    assert(out@ =~= repaired_doc(input@));
    out
}

/// Every comma that stands immediately between two digits of the raw
/// document is rewritten to a period in the repaired body.
pub proof fn lemma_decimal_comma_repaired(s: Seq<u8>, i: int)
    requires
        0 < i,
        i + 1 < s.len(),
        s[i] == COMMA,
        is_digit(s[i - 1]),
        is_digit(s[i + 1]),
    ensures
        repaired_body(s)[i] == PERIOD,
{
}

/// No decimal comma survives the repair: where the repaired body still
/// shows a comma between two digits, the raw document had a line break
/// there, never a comma.
pub proof fn lemma_remaining_comma_is_line_break(s: Seq<u8>, i: int)
    requires
        0 < i,
        i + 1 < s.len(),
        is_digit(repaired_body(s)[i - 1]),
        repaired_body(s)[i] == COMMA,
        is_digit(repaired_body(s)[i + 1]),
    ensures
        s[i] == LINE_FEED,
{
    assert(!is_digit(PERIOD) && !is_digit(COMMA));
}

/// How many bytes of `s` equal `b`.
pub open spec fn count_byte(s: Seq<u8>, b: u8) -> nat
    decreases s.len(),
{
    if s.len() == 0 {
        0
    } else {
        count_byte(s.drop_last(), b) + if s.last() == b {
            1nat
        } else {
            0nat
        }
    }
}

/// For a raw document whose only structural issue is one object per line,
/// so that no comma of it stands between two digits, the repaired body has
/// exactly one separator comma per comma or line break of the raw
/// document: line breaks become the separators of the array elements.
pub proof fn lemma_line_breaks_become_separators(s: Seq<u8>)
    requires
        forall|i: int| !decimal_comma_at(s, i),
    ensures
        count_byte(repaired_body(s), COMMA) == count_byte(s, COMMA) + count_byte(s, LINE_FEED),
    decreases s.len(),
{
    if s.len() == 0 {
        assert(repaired_body(s) =~= s);
    } else {
        let t = s.drop_last();
        assert forall|i: int| !decimal_comma_at(t, i) by {
            if decimal_comma_at(t, i) {
                assert(decimal_comma_at(s, i));
            }
        }
        lemma_line_breaks_become_separators(t);
        assert forall|i: int| 0 <= i < t.len() implies repaired_body(s)[i] == repaired_body(t)[i]
        by {
            assert(repair_byte(s, i) == repair_byte(t, i));
        }
        assert(repaired_body(s).drop_last() =~= repaired_body(t));
        assert(repaired_body(s).last() == repair_byte(s, s.len() - 1));
    }
}

} // verus!
