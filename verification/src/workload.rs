//! The benchmark workload driver's deterministic core: turning the
//! requested true-ratio into a comparison threshold or modulo divisor,
//! filling the input vectors, and counting how a filled boolean vector
//! came out. Random draws come from a seeded stream cipher generator
//! behind trusted wrappers; everything decided from the drawn values is
//! verified.

use vstd::prelude::*;
use rand::Rng;
use rand::SeedableRng;

verus! {

/// The workload parameters: the generator seed, the element count, the
/// requested ratio of true comparisons in percent, and whether the
/// comparison draws random bytes or uses a deterministic modulo.
#[allow(non_snake_case)]
pub struct AppArgs {
    /// Seed for the random number generator.
    pub seed: u64,
    /// Number of elements in the vectors.
    pub N: usize,
    /// Ratio of true values, zero to one hundred percent.
    pub ratio: u16,
    /// Whether comparisons are drawn at random rather than by modulo.
    pub rnd_cmp: bool,
}

/// The stream cipher random number generator that fills the workload
/// vectors.
#[verifier::external_type_specification]
#[verifier::external_body]
pub struct ExChaCha8Rng(rand_chacha::ChaCha8Rng);

/// Relies on rand_chacha's `ChaCha8Rng` and rand's `SeedableRng::seed_from_u64`
/// to build a generator from a word-sized seed; it never fails.
#[verifier::external_body]
fn rng_from_seed(seed: u64) -> rand_chacha::ChaCha8Rng {
    rand_chacha::ChaCha8Rng::seed_from_u64(seed)
}

/// Relies on rand's `Rng::gen` for a uniform machine word; nothing is
/// promised of the drawn value.
#[verifier::external_body]
fn rng_next_u32(rng: &mut rand_chacha::ChaCha8Rng) -> u32 {
    rng.gen()
}

/// Relies on rand's `Rng::gen` for a uniform byte; nothing is promised of
/// the drawn value.
#[verifier::external_body]
fn rng_next_u8(rng: &mut rand_chacha::ChaCha8Rng) -> u8 {
    rng.gen()
}

/// What the requested percentage turns into: with random comparisons, a
/// byte threshold scaled by two hundred fifty-five over one hundred, one
/// past the byte range at a full hundred percent; with modulo
/// comparisons, a divisor whose multiples come out true, chosen so that
/// roughly the requested share of positions is hit.
pub open spec fn ratio_to_u16_spec(ratio: u16, rnd_cmp: bool) -> u16 {
    if rnd_cmp {
        if ratio == 100 {
            256
        } else {
            ((255 * ratio) / 100) as u16
        }
    } else {
        if ratio == 0 {
            u16::MAX
        } else if 51 <= ratio {
            1
        } else if 34 <= ratio {
            2
        } else if 26 <= ratio {
            3
        } else if 21 <= ratio {
            4
        } else if 18 <= ratio {
            5
        } else if 16 <= ratio {
            6
        } else if 14 <= ratio {
            7
        } else {
            (21 - ratio) as u16
        }
    }
}

/// Convert the requested ratio in percent to the value the comparison
/// uses: a byte threshold for random comparisons, a modulo divisor for
/// deterministic ones.
pub fn arg_ratio_to_u16(args: &AppArgs) -> (r: u16)
    requires
        args.ratio <= 100,
    ensures
        r == ratio_to_u16_spec(args.ratio, args.rnd_cmp),
{
    if args.rnd_cmp {
        if args.ratio == 100 {
            256
        } else {
            ((255u32 * args.ratio as u32) / 100) as u16
        }
    } else {
        if args.ratio == 0 {
            u16::MAX
        } else if 51 <= args.ratio {
            1
        } else if 34 <= args.ratio {
            2
        } else if 26 <= args.ratio {
            3
        } else if 21 <= args.ratio {
            4
        } else if 18 <= args.ratio {
            5
        } else if 16 <= args.ratio {
            6
        } else if 14 <= args.ratio {
            7
        } else {
            21 - args.ratio
        }
    }
}

/// The modulo divisor is never zero, so the deterministic comparison is
/// always defined.
pub proof fn lemma_modulo_divisor_nonzero(ratio: u16)
    requires
        ratio <= 100,
    ensures
        ratio_to_u16_spec(ratio, false) >= 1,
{
}

/// Fill two vectors with random words and a boolean vector with the
/// outcome of the chosen comparison, one entry of each per position.
///
/// With deterministic comparisons the booleans are fully pinned down:
/// position `i` is true exactly where `i + 1` is a multiple of the
/// divisor that the ratio turns into. With random comparisons the
/// booleans depend on the drawn bytes and only the lengths are promised.
pub fn fill_vecs(args: &AppArgs) -> (r: (Vec<u32>, Vec<u32>, Vec<bool>))
    requires
        args.ratio <= 100,
    ensures
        r.0@.len() == args.N,
        r.1@.len() == args.N,
        r.2@.len() == args.N,
        !args.rnd_cmp ==> forall|i: int|
            0 <= i < args.N ==> r.2@[i] == ((i + 1) % (ratio_to_u16_spec(args.ratio, false) as int)
                == 0),
        args.rnd_cmp && args.ratio == 100 ==> forall|i: int| 0 <= i < args.N ==> r.2@[i],
        args.rnd_cmp && args.ratio == 0 ==> forall|i: int| 0 <= i < args.N ==> !r.2@[i],
{
    let mut rng = rng_from_seed(args.seed);
    let ratio_val: u16 = arg_ratio_to_u16(args);
    let n = args.N;
    let mut v1: Vec<u32> = Vec::new();
    let mut v2: Vec<u32> = Vec::new();
    let mut bools: Vec<bool> = Vec::new();
    let mut i: usize = 0;
    while i < n
        invariant
            i <= n,
            v1@.len() == i,
            v2@.len() == i,
            bools@.len() == i,
            args.ratio <= 100,
            ratio_val == ratio_to_u16_spec(args.ratio, args.rnd_cmp),
            !args.rnd_cmp ==> forall|k: int|
                0 <= k < i ==> bools@[k] == ((k + 1) % (ratio_to_u16_spec(args.ratio, false) as int)
                    == 0),
            args.rnd_cmp && args.ratio == 100 ==> forall|k: int| 0 <= k < i ==> bools@[k],
            args.rnd_cmp && args.ratio == 0 ==> forall|k: int| 0 <= k < i ==> !bools@[k],
        decreases n - i,
    {
        v1.push(rng_next_u32(&mut rng));
        v2.push(rng_next_u32(&mut rng));
        let b: bool = if args.rnd_cmp {
            (rng_next_u8(&mut rng) as u16) < ratio_val
        } else {
            proof {
                lemma_modulo_divisor_nonzero(args.ratio);
            }
            (i + 1) % (ratio_val as usize) == 0
        };
        bools.push(b);
        i += 1;
    }
    (v1, v2, bools)
}

/// How many entries of `s` are true.
pub open spec fn count_true_spec(s: Seq<bool>) -> nat
    decreases s.len(),
{
    if s.len() == 0 {
        0
    } else {
        count_true_spec(s.drop_last()) + if s.last() {
            1nat
        } else {
            0nat
        }
    }
}

/// Count the true entries of a boolean vector.
pub fn count_true(bools: &Vec<bool>) -> (n: u32)
    requires
        bools@.len() <= u32::MAX,
    ensures
        n == count_true_spec(bools@),
{
    let len = bools.len();
    let mut n: u32 = 0;
    let mut i: usize = 0;
    while i < len
        invariant
            len == bools@.len(),
            len <= u32::MAX,
            i <= len,
            n <= i,
            n == count_true_spec(bools@.take(i as int)),
        decreases len - i,
    {
        proof {
            assert(bools@.take(i + 1).drop_last() =~= bools@.take(i as int));
        }
        if bools[i] {
            n += 1;
        }
        i += 1;
    }
    proof {
        assert(bools@.take(len as int) =~= bools@);
    }
    n
}

} // verus!
