//! Series composition: pairing aggregated value series positionally with
//! the x-axis sweep values, and element-wise summation of companion
//! sub-counter series into totals. Misaligned lengths surface as an
//! explicit error, never as silent truncation.

use vstd::prelude::*;
use crate::aggregate::{
    all_decode, all_records, decoded_values, matching_records, metric_samples, runs_view,
    samples_view, seq_max, seq_min, branch_misses_event, duration_event,
    durations_from_perf_stats, frac_branch_misses_core_from_perf_stats, vals_from_perf_stats,
};
use crate::magnitude::{classify_spec, min_of, Magnitude};
use crate::record::{clone_bytes, PerfStatRecord};
use crate::PerfError;

verus! {

/// Element-wise sum of two companion sub-counter series, in a wider word
/// so that no pair of counters can overflow. Fails exactly where the two
/// series have unequal length.
pub fn sum_series(a: &Vec<u64>, b: &Vec<u64>) -> (r: Result<Vec<u128>, PerfError>)
    ensures
        a@.len() == b@.len() <==> r is Ok,
        r matches Ok(sums) ==> sums@.len() == a@.len() && forall|i: int|
            0 <= i < a@.len() ==> sums@[i] == a@[i] + b@[i],
        r matches Err(e) ==> e == PerfError::LengthMismatch,
{
    let n = a.len();
    if n != b.len() {
        return Err(PerfError::LengthMismatch);
    }
    let mut sums: Vec<u128> = Vec::new();
    let mut i: usize = 0;
    while i < n
        invariant
            n == a@.len(),
            n == b@.len(),
            i <= n,
            sums@.len() == i,
            forall|k: int| 0 <= k < i ==> sums@[k] == a@[k] + b@[k],
        decreases n - i,
    {
        sums.push(a[i] as u128 + b[i] as u128);
        i += 1;
    }
    Ok(sums)
}

/// Pair the sweep values positionally with a value series: the i-th x
/// with the i-th y. Fails exactly where the two series have unequal
/// length.
pub fn pair_series<T: Copy>(xs: &Vec<u64>, ys: &Vec<T>) -> (r: Result<Vec<(u64, T)>, PerfError>)
    ensures
        xs@.len() == ys@.len() <==> r is Ok,
        r matches Ok(pairs) ==> pairs@.len() == xs@.len() && forall|i: int|
            0 <= i < xs@.len() ==> pairs@[i] == (xs@[i], ys@[i]),
        r matches Err(e) ==> e == PerfError::LengthMismatch,
{
    let n = xs.len();
    if n != ys.len() {
        return Err(PerfError::LengthMismatch);
    }
    let mut pairs: Vec<(u64, T)> = Vec::new();
    let mut i: usize = 0;
    while i < n
        invariant
            n == xs@.len(),
            n == ys@.len(),
            i <= n,
            pairs@.len() == i,
            forall|k: int| 0 <= k < i ==> pairs@[k] == (xs@[k], ys@[k]),
        decreases n - i,
    {
        pairs.push((xs[i], ys[i]));
        i += 1;
    }
    Ok(pairs)
}

/// Pair the sweep values positionally with a metric sample series. Fails
/// exactly where the two series have unequal length.
pub fn pair_samples(xs: &Vec<u64>, ys: &Vec<Option<Vec<u8>>>) -> (r: Result<
    Vec<(u64, Option<Vec<u8>>)>,
    PerfError,
>)
    ensures
        xs@.len() == ys@.len() <==> r is Ok,
        r matches Ok(pairs) ==> pairs@.len() == xs@.len() && forall|i: int|
            0 <= i < xs@.len() ==> (#[trigger] pairs@[i]).0 == xs@[i] && (match pairs@[i].1 {
                None => ys@[i] is None,
                Some(v) => ys@[i] matches Some(w) && v@ == w@,
            }),
        r matches Err(e) ==> e == PerfError::LengthMismatch,
{
    let n = xs.len();
    if n != ys.len() {
        return Err(PerfError::LengthMismatch);
    }
    let mut pairs: Vec<(u64, Option<Vec<u8>>)> = Vec::new();
    let mut i: usize = 0;
    while i < n
        invariant
            n == xs@.len(),
            n == ys@.len(),
            i <= n,
            pairs@.len() == i,
            forall|k: int| 0 <= k < i ==> (#[trigger] pairs@[k]).0 == xs@[k] && (match pairs@[k].1 {
                None => ys@[k] is None,
                Some(v) => ys@[k] matches Some(w) && v@ == w@,
            }),
        decreases n - i,
    {
        let sample: Option<Vec<u8>> = match &ys[i] {
            None => None,
            Some(v) => Some(clone_bytes(v)),
        };
        pairs.push((xs[i], sample));
        i += 1;
    }
    Ok(pairs)
}

/// The event filter of the core cluster's instruction counter: the bytes
/// of `cpu_core/instructions`.
pub open spec fn core_instructions_event() -> Seq<u8> {
    seq![
        99u8, 112u8, 117u8, 95u8, 99u8, 111u8, 114u8, 101u8, 47u8, 105u8, 110u8, 115u8, 116u8,
        114u8, 117u8, 99u8, 116u8, 105u8, 111u8, 110u8, 115u8,
    ]
}

/// The event filter of the atom cluster's instruction counter: the bytes
/// of `cpu_atom/instructions`.
pub open spec fn atom_instructions_event() -> Seq<u8> {
    seq![
        99u8, 112u8, 117u8, 95u8, 97u8, 116u8, 111u8, 109u8, 47u8, 105u8, 110u8, 115u8, 116u8,
        114u8, 117u8, 99u8, 116u8, 105u8, 111u8, 110u8, 115u8,
    ]
}

/// The byte string of the core cluster's instruction event filter.
pub fn core_instructions_event_bytes() -> (r: Vec<u8>)
    ensures
        r@ == core_instructions_event(),
{
    let mut v: Vec<u8> = Vec::new();
    v.push(99);
    v.push(112);
    v.push(117);
    v.push(95);
    v.push(99);
    v.push(111);
    v.push(114);
    v.push(101);
    v.push(47);
    v.push(105);
    v.push(110);
    v.push(115);
    v.push(116);
    v.push(114);
    v.push(117);
    v.push(99);
    v.push(116);
    v.push(105);
    v.push(111);
    v.push(110);
    v.push(115);
    assert(v@ =~= core_instructions_event());
    v
}

/// The byte string of the atom cluster's instruction event filter.
pub fn atom_instructions_event_bytes() -> (r: Vec<u8>)
    ensures
        r@ == atom_instructions_event(),
{
    let mut v: Vec<u8> = Vec::new();
    v.push(99);
    v.push(112);
    v.push(117);
    v.push(95);
    v.push(97);
    v.push(116);
    v.push(111);
    v.push(109);
    v.push(47);
    v.push(105);
    v.push(110);
    v.push(115);
    v.push(116);
    v.push(114);
    v.push(117);
    v.push(99);
    v.push(116);
    v.push(105);
    v.push(111);
    v.push(110);
    v.push(115);
    assert(v@ =~= atom_instructions_event());
    v
}

/// What aggregating one event over a set of runs would surface: a parse
/// error where a matching counter value does not decode, an
/// empty-aggregation error where nothing matches, and no error otherwise.
pub open spec fn agg_outcome(runs: Seq<Seq<PerfStatRecord>>, ev: Seq<u8>) -> Option<PerfError> {
    let m = matching_records(all_records(runs), ev);
    if !all_decode(m) {
        Some(PerfError::ParseError)
    } else if m.len() == 0 {
        Some(PerfError::EmptyAggregation)
    } else {
        None
    }
}

/// The plot-ready series of the instruction chart: per variant, the total,
/// core and atom instruction counts paired with the sweep values, together
/// with the shared magnitude and the greatest total, which fix the chart's
/// unit and upper bound.
#[derive(Debug)]
pub struct CpuInstructionsSeries {
    /// Per sweep value, the summed core and atom counts of the branching
    /// variant.
    pub br_total_x: Vec<(u64, u128)>,
    /// Per sweep value, the core cluster count of the branching variant.
    pub br_core_x: Vec<(u64, u64)>,
    /// Per sweep value, the atom cluster count of the branching variant.
    pub br_atom_x: Vec<(u64, u64)>,
    /// Per sweep value, the summed core and atom counts of the branchless
    /// variant.
    pub bl_total_x: Vec<(u64, u128)>,
    /// Per sweep value, the core cluster count of the branchless variant.
    pub bl_core_x: Vec<(u64, u64)>,
    /// Per sweep value, the atom cluster count of the branchless variant.
    pub bl_atom_x: Vec<(u64, u64)>,
    /// The smaller of the two core series' minimum magnitudes: the shared
    /// display unit of the chart.
    pub min_magnitude: Magnitude,
    /// The greater of the two variants' summed maxima: the chart's upper
    /// bound before scaling.
    pub max_total: u128,
}

/// Which error composing the instruction chart's series surfaces, and
/// when: the aggregation outcomes in the order the series are aggregated,
/// then a length mismatch where the series do not align with each other or
/// with the sweep.
pub open spec fn cpu_instructions_error(
    xs: Seq<u64>,
    brv: Seq<Seq<PerfStatRecord>>,
    blv: Seq<Seq<PerfStatRecord>>,
) -> Option<PerfError> {
    if agg_outcome(brv, core_instructions_event()) is Some {
        agg_outcome(brv, core_instructions_event())
    } else if agg_outcome(blv, core_instructions_event()) is Some {
        agg_outcome(blv, core_instructions_event())
    } else if agg_outcome(brv, atom_instructions_event()) is Some {
        agg_outcome(brv, atom_instructions_event())
    } else if agg_outcome(blv, atom_instructions_event()) is Some {
        agg_outcome(blv, atom_instructions_event())
    } else {
        let brc = decoded_values(matching_records(all_records(brv), core_instructions_event()));
        let blc = decoded_values(matching_records(all_records(blv), core_instructions_event()));
        let bra = decoded_values(matching_records(all_records(brv), atom_instructions_event()));
        let bla = decoded_values(matching_records(all_records(blv), atom_instructions_event()));
        if brc.len() != bra.len() || blc.len() != bla.len() || xs.len() != brc.len() || xs.len()
            != blc.len() {
            Some(PerfError::LengthMismatch)
        } else {
            None
        }
    }
}

/// What a successfully composed instruction chart holds: each series is
/// the aggregated values paired positionally with the sweep, the totals
/// are the element-wise sums of core and atom, the magnitude is the
/// smaller of the two core minima's buckets, and the upper bound is the
/// greater of the two summed maxima.
pub open spec fn cpu_instructions_ok(
    xs: Seq<u64>,
    brv: Seq<Seq<PerfStatRecord>>,
    blv: Seq<Seq<PerfStatRecord>>,
    out: CpuInstructionsSeries,
) -> bool {
    let brc = decoded_values(matching_records(all_records(brv), core_instructions_event()));
    let blc = decoded_values(matching_records(all_records(blv), core_instructions_event()));
    let bra = decoded_values(matching_records(all_records(brv), atom_instructions_event()));
    let bla = decoded_values(matching_records(all_records(blv), atom_instructions_event()));
    &&& brc.len() == xs.len()
    &&& blc.len() == xs.len()
    &&& bra.len() == xs.len()
    &&& bla.len() == xs.len()
    &&& out.min_magnitude == min_of(
        classify_spec(seq_min(brc) as nat),
        classify_spec(seq_min(blc) as nat),
    )
    &&& out.max_total == if seq_max(brc) + seq_max(bra) >= seq_max(blc) + seq_max(bla) {
        seq_max(brc) + seq_max(bra)
    } else {
        seq_max(blc) + seq_max(bla)
    }
    &&& out.br_total_x@.len() == xs.len()
    &&& forall|i: int|
        0 <= i < xs.len() ==> (#[trigger] out.br_total_x@[i]).0 == xs[i] && out.br_total_x@[i].1
            == brc[i] + bra[i]
    &&& out.bl_total_x@.len() == xs.len()
    &&& forall|i: int|
        0 <= i < xs.len() ==> (#[trigger] out.bl_total_x@[i]).0 == xs[i] && out.bl_total_x@[i].1
            == blc[i] + bla[i]
    &&& out.br_core_x@.len() == xs.len()
    &&& forall|i: int| 0 <= i < xs.len() ==> #[trigger] out.br_core_x@[i] == (xs[i], brc[i])
    &&& out.br_atom_x@.len() == xs.len()
    &&& forall|i: int| 0 <= i < xs.len() ==> #[trigger] out.br_atom_x@[i] == (xs[i], bra[i])
    &&& out.bl_core_x@.len() == xs.len()
    &&& forall|i: int| 0 <= i < xs.len() ==> #[trigger] out.bl_core_x@[i] == (xs[i], blc[i])
    &&& out.bl_atom_x@.len() == xs.len()
    &&& forall|i: int| 0 <= i < xs.len() ==> #[trigger] out.bl_atom_x@[i] == (xs[i], bla[i])
}

/// Compose the instruction chart's series: aggregate the core and atom
/// instruction counters of both variants, choose the smaller core
/// magnitude as the shared unit, sum core and atom element-wise into
/// totals, and pair every series positionally with the sweep values.
pub fn cpu_instructions_series(
    x_vals: &Vec<u64>,
    br_perf_stats: &Vec<Vec<PerfStatRecord>>,
    bl_perf_stats: &Vec<Vec<PerfStatRecord>>,
) -> (r: Result<CpuInstructionsSeries, PerfError>)
    ensures
        r is Err <==> cpu_instructions_error(
            x_vals@,
            runs_view(br_perf_stats@),
            runs_view(bl_perf_stats@),
        ) is Some,
        r matches Err(e) ==> cpu_instructions_error(
            x_vals@,
            runs_view(br_perf_stats@),
            runs_view(bl_perf_stats@),
        ) == Some(e),
        r matches Ok(out) ==> cpu_instructions_ok(
            x_vals@,
            runs_view(br_perf_stats@),
            runs_view(bl_perf_stats@),
            out,
        ),
{
    let core_event = core_instructions_event_bytes();
    let atom_event = atom_instructions_event_bytes();
    let (br_core_vals, br_min_mag, br_core_max) = match vals_from_perf_stats(
        br_perf_stats,
        &core_event,
    ) {
        Ok(t) => t,
        Err(e) => {
            return Err(e);
        },
    };
    let (bl_core_vals, bl_min_mag, bl_core_max) = match vals_from_perf_stats(
        bl_perf_stats,
        &core_event,
    ) {
        Ok(t) => t,
        Err(e) => {
            return Err(e);
        },
    };
    let (br_atom_vals, _, br_atom_max) = match vals_from_perf_stats(br_perf_stats, &atom_event) {
        Ok(t) => t,
        Err(e) => {
            return Err(e);
        },
    };
    let (bl_atom_vals, _, bl_atom_max) = match vals_from_perf_stats(bl_perf_stats, &atom_event) {
        Ok(t) => t,
        Err(e) => {
            return Err(e);
        },
    };
    let min_magnitude = br_min_mag.min(bl_min_mag);
    let br_total = match sum_series(&br_core_vals, &br_atom_vals) {
        Ok(t) => t,
        Err(e) => {
            return Err(e);
        },
    };
    let bl_total = match sum_series(&bl_core_vals, &bl_atom_vals) {
        Ok(t) => t,
        Err(e) => {
            return Err(e);
        },
    };
    let br_max = br_core_max as u128 + br_atom_max as u128;
    let bl_max = bl_core_max as u128 + bl_atom_max as u128;
    let max_total = if br_max >= bl_max {
        br_max
    } else {
        bl_max
    };
    let br_total_x = match pair_series(x_vals, &br_total) {
        Ok(t) => t,
        Err(e) => {
            return Err(e);
        },
    };
    let bl_total_x = match pair_series(x_vals, &bl_total) {
        Ok(t) => t,
        Err(e) => {
            return Err(e);
        },
    };
    let br_core_x = match pair_series(x_vals, &br_core_vals) {
        Ok(t) => t,
        Err(e) => {
            return Err(e);
        },
    };
    let br_atom_x = match pair_series(x_vals, &br_atom_vals) {
        Ok(t) => t,
        Err(e) => {
            return Err(e);
        },
    };
    let bl_core_x = match pair_series(x_vals, &bl_core_vals) {
        Ok(t) => t,
        Err(e) => {
            return Err(e);
        },
    };
    let bl_atom_x = match pair_series(x_vals, &bl_atom_vals) {
        Ok(t) => t,
        Err(e) => {
            return Err(e);
        },
    };
    Ok(
        CpuInstructionsSeries {
            br_total_x,
            br_core_x,
            br_atom_x,
            bl_total_x,
            bl_core_x,
            bl_atom_x,
            min_magnitude,
            max_total,
        },
    )
}

/// Which error pairing both variants' durations with the sweep surfaces,
/// and when: a parse error where a duration counter value does not decode,
/// then a length mismatch where a duration series does not align with the
/// sweep.
pub open spec fn durations_over_x_error(
    xs: Seq<u64>,
    brv: Seq<Seq<PerfStatRecord>>,
    blv: Seq<Seq<PerfStatRecord>>,
) -> Option<PerfError> {
    let brm = matching_records(all_records(brv), duration_event());
    let blm = matching_records(all_records(blv), duration_event());
    if !all_decode(brm) {
        Some(PerfError::ParseError)
    } else if !all_decode(blm) {
        Some(PerfError::ParseError)
    } else if xs.len() != decoded_values(brm).len() || xs.len() != decoded_values(blm).len() {
        Some(PerfError::LengthMismatch)
    } else {
        None
    }
}

/// Pair both variants' wall-clock durations, in nanoseconds, positionally
/// with the sweep values.
pub fn branching_branchless_durations_over_x(
    x_vals: &Vec<u64>,
    br_perf_stats: &Vec<Vec<PerfStatRecord>>,
    bl_perf_stats: &Vec<Vec<PerfStatRecord>>,
) -> (r: Result<(Vec<(u64, u64)>, Vec<(u64, u64)>), PerfError>)
    ensures
        r is Err <==> durations_over_x_error(
            x_vals@,
            runs_view(br_perf_stats@),
            runs_view(bl_perf_stats@),
        ) is Some,
        r matches Err(e) ==> durations_over_x_error(
            x_vals@,
            runs_view(br_perf_stats@),
            runs_view(bl_perf_stats@),
        ) == Some(e),
        r matches Ok(t) ==> ({
            let brd = decoded_values(
                matching_records(all_records(runs_view(br_perf_stats@)), duration_event()),
            );
            let bld = decoded_values(
                matching_records(all_records(runs_view(bl_perf_stats@)), duration_event()),
            );
            &&& brd.len() == x_vals@.len()
            &&& bld.len() == x_vals@.len()
            &&& t.0@.len() == x_vals@.len()
            &&& forall|i: int|
                0 <= i < x_vals@.len() ==> #[trigger] t.0@[i] == (x_vals@[i], brd[i])
            &&& t.1@.len() == x_vals@.len()
            &&& forall|i: int|
                0 <= i < x_vals@.len() ==> #[trigger] t.1@[i] == (x_vals@[i], bld[i])
        }),
{
    let br_durations = match durations_from_perf_stats(br_perf_stats) {
        Ok(v) => v,
        Err(e) => {
            return Err(e);
        },
    };
    let bl_durations = match durations_from_perf_stats(bl_perf_stats) {
        Ok(v) => v,
        Err(e) => {
            return Err(e);
        },
    };
    let br_durations_x = match pair_series(x_vals, &br_durations) {
        Ok(t) => t,
        Err(e) => {
            return Err(e);
        },
    };
    let bl_durations_x = match pair_series(x_vals, &bl_durations) {
        Ok(t) => t,
        Err(e) => {
            return Err(e);
        },
    };
    Ok((br_durations_x, bl_durations_x))
}

/// The plot-ready series of the duration and branch-miss chart: per
/// variant, the wall-clock durations in nanoseconds and the branch-miss
/// metric samples, each paired with the sweep values.
#[derive(Debug)]
pub struct TimeBranchMissesSeries {
    /// Per sweep value, the branching variant's duration in nanoseconds.
    pub br_durations_x: Vec<(u64, u64)>,
    /// Per sweep value, the branchless variant's duration in nanoseconds.
    pub bl_durations_x: Vec<(u64, u64)>,
    /// Per sweep value, the branching variant's core branch-miss metric
    /// sample.
    pub br_misses_x: Vec<(u64, Option<Vec<u8>>)>,
    /// Per sweep value, the branchless variant's core branch-miss metric
    /// sample.
    pub bl_misses_x: Vec<(u64, Option<Vec<u8>>)>,
}

/// Which error composing the duration and branch-miss chart's series
/// surfaces, and when: the duration pairing's error first, then a length
/// mismatch where a branch-miss series does not align with the sweep.
pub open spec fn time_branch_misses_error(
    xs: Seq<u64>,
    brv: Seq<Seq<PerfStatRecord>>,
    blv: Seq<Seq<PerfStatRecord>>,
) -> Option<PerfError> {
    if durations_over_x_error(xs, brv, blv) is Some {
        durations_over_x_error(xs, brv, blv)
    } else {
        let brf = metric_samples(matching_records(all_records(brv), branch_misses_event()));
        let blf = metric_samples(matching_records(all_records(blv), branch_misses_event()));
        if xs.len() != brf.len() || xs.len() != blf.len() {
            Some(PerfError::LengthMismatch)
        } else {
            None
        }
    }
}

/// What a successfully composed duration and branch-miss chart holds: the
/// duration pairs as the duration pairing gives them, and per sweep value
/// the matching branch-miss record's metric sample.
pub open spec fn time_branch_misses_ok(
    xs: Seq<u64>,
    brv: Seq<Seq<PerfStatRecord>>,
    blv: Seq<Seq<PerfStatRecord>>,
    out: TimeBranchMissesSeries,
) -> bool {
    let brd = decoded_values(matching_records(all_records(brv), duration_event()));
    let bld = decoded_values(matching_records(all_records(blv), duration_event()));
    let brf = metric_samples(matching_records(all_records(brv), branch_misses_event()));
    let blf = metric_samples(matching_records(all_records(blv), branch_misses_event()));
    &&& brd.len() == xs.len()
    &&& bld.len() == xs.len()
    &&& brf.len() == xs.len()
    &&& blf.len() == xs.len()
    &&& out.br_durations_x@.len() == xs.len()
    &&& forall|i: int| 0 <= i < xs.len() ==> #[trigger] out.br_durations_x@[i] == (xs[i], brd[i])
    &&& out.bl_durations_x@.len() == xs.len()
    &&& forall|i: int| 0 <= i < xs.len() ==> #[trigger] out.bl_durations_x@[i] == (xs[i], bld[i])
    &&& out.br_misses_x@.len() == xs.len()
    &&& forall|i: int|
        0 <= i < xs.len() ==> (#[trigger] out.br_misses_x@[i]).0 == xs[i] && (match out.br_misses_x@[i].1 {
            None => brf[i] is None,
            Some(v) => brf[i] matches Some(w) && v@ == w,
        })
    &&& out.bl_misses_x@.len() == xs.len()
    &&& forall|i: int|
        0 <= i < xs.len() ==> (#[trigger] out.bl_misses_x@[i]).0 == xs[i] && (match out.bl_misses_x@[i].1 {
            None => blf[i] is None,
            Some(v) => blf[i] matches Some(w) && v@ == w,
        })
}

/// Compose the duration and branch-miss chart's series: pair both
/// variants' durations and core branch-miss metric samples positionally
/// with the sweep values.
pub fn time_branch_misses_series(
    x_vals: &Vec<u64>,
    br_perf_stats: &Vec<Vec<PerfStatRecord>>,
    bl_perf_stats: &Vec<Vec<PerfStatRecord>>,
) -> (r: Result<TimeBranchMissesSeries, PerfError>)
    ensures
        r is Err <==> time_branch_misses_error(
            x_vals@,
            runs_view(br_perf_stats@),
            runs_view(bl_perf_stats@),
        ) is Some,
        r matches Err(e) ==> time_branch_misses_error(
            x_vals@,
            runs_view(br_perf_stats@),
            runs_view(bl_perf_stats@),
        ) == Some(e),
        r matches Ok(out) ==> time_branch_misses_ok(
            x_vals@,
            runs_view(br_perf_stats@),
            runs_view(bl_perf_stats@),
            out,
        ),
{
    let (br_durations_x, bl_durations_x) = match branching_branchless_durations_over_x(
        x_vals,
        br_perf_stats,
        bl_perf_stats,
    ) {
        Ok(t) => t,
        Err(e) => {
            return Err(e);
        },
    };
    let br_fracs = frac_branch_misses_core_from_perf_stats(br_perf_stats);
    let bl_fracs = frac_branch_misses_core_from_perf_stats(bl_perf_stats);
    let br_misses_x = match pair_samples(x_vals, &br_fracs) {
        Ok(t) => t,
        Err(e) => {
            return Err(e);
        },
    };
    let bl_misses_x = match pair_samples(x_vals, &bl_fracs) {
        Ok(t) => t,
        Err(e) => {
            return Err(e);
        },
    };
    proof {
        let brm = matching_records(all_records(runs_view(br_perf_stats@)), branch_misses_event());
        let blm = matching_records(all_records(runs_view(bl_perf_stats@)), branch_misses_event());
        assert forall|i: int| 0 <= i < x_vals@.len() implies samples_view(br_fracs@)[i]
            == metric_samples(brm)[i] && samples_view(bl_fracs@)[i] == metric_samples(blm)[i] by {
        }
    }
    Ok(
        TimeBranchMissesSeries {
            br_durations_x,
            bl_durations_x,
            br_misses_x,
            bl_misses_x,
        },
    )
}

} // verus!
