//! The few ASCII bytes that the export format gives a meaning to, and the
//! digit predicate shared by the repair transform and the value decoder.

use vstd::prelude::*;

verus! {

/// The line feed byte.
pub const LINE_FEED: u8 = 10;

/// The comma byte.
pub const COMMA: u8 = 44;

/// The period byte.
pub const PERIOD: u8 = 46;

/// The left square bracket byte.
pub const LEFT_BRACKET: u8 = 91;

/// The right square bracket byte.
pub const RIGHT_BRACKET: u8 = 93;

/// The byte of the digit zero.
pub const DIGIT_ZERO: u8 = 48;

/// The byte of the digit nine.
pub const DIGIT_NINE: u8 = 57;

/// Whether a byte is an ASCII decimal digit.
pub open spec fn is_digit(b: u8) -> bool {
    DIGIT_ZERO <= b && b <= DIGIT_NINE
}

/// The numeric value of a digit byte.
pub open spec fn digit_value(b: u8) -> nat {
    (b - DIGIT_ZERO) as nat
}

/// Whether a byte is an ASCII decimal digit, decided at run time.
pub fn is_digit_byte(b: u8) -> (r: bool)
    ensures
        r == is_digit(b),
{
    DIGIT_ZERO <= b && b <= DIGIT_NINE
}

} // verus!
