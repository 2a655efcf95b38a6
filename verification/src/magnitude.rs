//! Magnitude classification: mapping a counter value to a power-of-ten
//! bucket and its scale factor, so that series of very different sizes can
//! share one display unit.

use vstd::prelude::*;
use vstd::arithmetic::div_mod::{
    lemma_div_by_self, lemma_div_is_ordered, lemma_multiply_divide_lt,
};

verus! {

/// One bucket of a fixed, totally ordered set of decimal magnitudes from
/// ten to the minus ninth up to ten to the twenty-seventh, in steps of
/// three decades. A bucket carries a display suffix and a scale factor.
#[derive(Debug, Clone, Copy, PartialEq, Eq, PartialOrd, Ord, Structural)]
pub enum Magnitude {
    Eminus9,
    Eminus6,
    Eminus3,
    E0,
    E3,
    E6,
    E9,
    E12,
    E15,
    E18,
    E21,
    E24,
    E27,
}

/// Ten to the power `e`.
pub open spec fn pow10(e: nat) -> nat
    decreases e,
{
    if e == 0 {
        1
    } else {
        10 * pow10((e - 1) as nat)
    }
}

/// The decimal exponent of a bucket's scale factor.
pub open spec fn exponent_of(m: Magnitude) -> int {
    match m {
        Magnitude::Eminus9 => -9,
        Magnitude::Eminus6 => -6,
        Magnitude::Eminus3 => -3,
        Magnitude::E0 => 0,
        Magnitude::E3 => 3,
        Magnitude::E6 => 6,
        Magnitude::E9 => 9,
        Magnitude::E12 => 12,
        Magnitude::E15 => 15,
        Magnitude::E18 => 18,
        Magnitude::E21 => 21,
        Magnitude::E24 => 24,
        Magnitude::E27 => 27,
    }
}

/// The bucket that contains the unsigned value `n`: the greatest bucket
/// whose scale factor is at most `n`, collapsed to `E27` above the top
/// threshold, and `E0` for zero by special case.
pub open spec fn classify_spec(n: nat) -> Magnitude {
    if n < pow10(3) {
        Magnitude::E0
    } else if n < pow10(6) {
        Magnitude::E3
    } else if n < pow10(9) {
        Magnitude::E6
    } else if n < pow10(12) {
        Magnitude::E9
    } else if n < pow10(15) {
        Magnitude::E12
    } else if n < pow10(18) {
        Magnitude::E15
    } else if n < pow10(21) {
        Magnitude::E18
    } else if n < pow10(24) {
        Magnitude::E21
    } else if n < pow10(27) {
        Magnitude::E24
    } else {
        Magnitude::E27
    }
}

/// The concrete values of the powers of ten that the buckets use.
pub proof fn lemma_pow10_values()
    ensures
        pow10(0) == 1,
        pow10(3) == 1_000,
        pow10(6) == 1_000_000,
        pow10(9) == 1_000_000_000,
        pow10(12) == 1_000_000_000_000,
        pow10(15) == 1_000_000_000_000_000,
        pow10(18) == 1_000_000_000_000_000_000,
        pow10(21) == 1_000_000_000_000_000_000_000,
        pow10(24) == 1_000_000_000_000_000_000_000_000,
        pow10(27) == 1_000_000_000_000_000_000_000_000_000,
{
    reveal_with_fuel(pow10, 28);
}

impl Magnitude {
    /// Classify an unsigned counter value into its magnitude bucket.
    /// Zero classifies as the unit bucket `E0`.
    pub fn classify(num: u64) -> (r: Magnitude)
        ensures
            r == classify_spec(num as nat),
    {
        proof {
            lemma_pow10_values();
        }
        if num < 1_000 {
            Magnitude::E0
        } else if num < 1_000_000 {
            Magnitude::E3
        } else if num < 1_000_000_000 {
            Magnitude::E6
        } else if num < 1_000_000_000_000 {
            Magnitude::E9
        } else if num < 1_000_000_000_000_000 {
            Magnitude::E12
        } else if num < 1_000_000_000_000_000_000 {
            Magnitude::E15
        } else {
            Magnitude::E18
        }
    }

    /// The decimal exponent of this bucket.
    pub fn exponent(&self) -> (e: i32)
        ensures
            e as int == exponent_of(*self),
    {
        match self {
            Magnitude::Eminus9 => -9,
            Magnitude::Eminus6 => -6,
            Magnitude::Eminus3 => -3,
            Magnitude::E0 => 0,
            Magnitude::E3 => 3,
            Magnitude::E6 => 6,
            Magnitude::E9 => 9,
            Magnitude::E12 => 12,
            Magnitude::E15 => 15,
            Magnitude::E18 => 18,
            Magnitude::E21 => 21,
            Magnitude::E24 => 24,
            Magnitude::E27 => 27,
        }
    }

    /// The scale factor of this bucket as an exact fraction
    /// numerator over denominator, so that buckets below the unit bucket
    /// need no fractional number type.
    pub fn scale(&self) -> (r: (u128, u128))
        ensures
            exponent_of(*self) >= 0 ==> r.0 == pow10(exponent_of(*self) as nat) && r.1 == 1,
            exponent_of(*self) < 0 ==> r.0 == 1 && r.1 == pow10((-exponent_of(*self)) as nat),
    {
        proof {
            lemma_pow10_values();
        }
        match self {
            Magnitude::Eminus9 => (1, 1_000_000_000),
            Magnitude::Eminus6 => (1, 1_000_000),
            Magnitude::Eminus3 => (1, 1_000),
            Magnitude::E0 => (1, 1),
            Magnitude::E3 => (1_000, 1),
            Magnitude::E6 => (1_000_000, 1),
            Magnitude::E9 => (1_000_000_000, 1),
            Magnitude::E12 => (1_000_000_000_000, 1),
            Magnitude::E15 => (1_000_000_000_000_000, 1),
            Magnitude::E18 => (1_000_000_000_000_000_000, 1),
            Magnitude::E21 => (1_000_000_000_000_000_000_000, 1),
            Magnitude::E24 => (1_000_000_000_000_000_000_000_000, 1),
            Magnitude::E27 => (1_000_000_000_000_000_000_000_000_000, 1),
        }
    }

    /// The display suffix of this bucket; the unit bucket has none.
    pub fn suffix(&self) -> (r: &'static str)
        ensures
            r@ == suffix_of(*self),
    {
        match self {
            Magnitude::Eminus9 => "E-9",
            Magnitude::Eminus6 => "E-6",
            Magnitude::Eminus3 => "E-3",
            Magnitude::E0 => "",
            Magnitude::E3 => "E3",
            Magnitude::E6 => "E6",
            Magnitude::E9 => "E9",
            Magnitude::E12 => "E12",
            Magnitude::E15 => "E15",
            Magnitude::E18 => "E18",
            Magnitude::E21 => "E21",
            Magnitude::E24 => "E24",
            Magnitude::E27 => "E27",
        }
    }

    /// The smaller of two buckets: the shared display unit chosen for a
    /// pair of companion series.
    pub fn min(self, other: Magnitude) -> (r: Magnitude)
        ensures
            r == min_of(self, other),
    {
        if self.exponent() <= other.exponent() {
            self
        } else {
            other
        }
    }
}

/// The smaller of two buckets, by exponent.
pub open spec fn min_of(a: Magnitude, b: Magnitude) -> Magnitude {
    if exponent_of(a) <= exponent_of(b) {
        a
    } else {
        b
    }
}

/// The display suffix of a bucket.
pub open spec fn suffix_of(m: Magnitude) -> Seq<char> {
    match m {
        Magnitude::Eminus9 => "E-9"@,
        Magnitude::Eminus6 => "E-6"@,
        Magnitude::Eminus3 => "E-3"@,
        Magnitude::E0 => ""@,
        Magnitude::E3 => "E3"@,
        Magnitude::E6 => "E6"@,
        Magnitude::E9 => "E9"@,
        Magnitude::E12 => "E12"@,
        Magnitude::E15 => "E15"@,
        Magnitude::E18 => "E18"@,
        Magnitude::E21 => "E21"@,
        Magnitude::E24 => "E24"@,
        Magnitude::E27 => "E27"@,
    }
}

/// Every nonzero value sits at or above its bucket's scale factor, and,
/// below the top bucket, strictly under the next bucket's scale factor;
/// buckets of nonnegative values never fall below the unit bucket.
pub proof fn lemma_classify_bounds(n: nat)
    requires
        1 <= n,
    ensures
        exponent_of(classify_spec(n)) >= 0,
        pow10(exponent_of(classify_spec(n)) as nat) <= n,
        classify_spec(n) != Magnitude::E27 ==> n < pow10((exponent_of(classify_spec(n)) + 3) as nat),
{
    lemma_pow10_values();
}

/// Re-classifying an already-scaled nonzero value yields the unit bucket:
/// dividing a value by its own bucket's scale factor lands in the range
/// from one up to but excluding one thousand, whose bucket is `E0`.
pub proof fn lemma_classify_idempotent(n: nat)
    requires
        1 <= n,
        classify_spec(n) != Magnitude::E27,
    ensures
        1 <= n / pow10(exponent_of(classify_spec(n)) as nat) < 1000,
        classify_spec(n / pow10(exponent_of(classify_spec(n)) as nat)) == Magnitude::E0,
{
    lemma_pow10_values();
    lemma_classify_bounds(n);
    let s = pow10(exponent_of(classify_spec(n)) as nat) as int;
    lemma_div_by_self(s);
    lemma_div_is_ordered(s, n as int, s);
    lemma_multiply_divide_lt(n as int, s, 1000);
}

} // verus!
