//! Event-based extraction and aggregation: flattening all records of all
//! measurement runs in encounter order, keeping those whose event matches
//! a filter, decoding their counter values, and reporting the bulk
//! minimum's magnitude and the bulk maximum alongside the value series.

use vstd::prelude::*;
use crate::magnitude::{classify_spec, Magnitude};
use crate::record::{
    bytes_eq, clone_bytes, contains_seq, contains_subslice, decode_counter, decode_counter_value,
    decode_digits, is_not_counted, not_counted, parse_truncated, PerfStatRecord,
};
use crate::PerfError;

verus! {

/// The record sequences of a set of runs, as one mathematical value.
pub open spec fn runs_view(runs: Seq<Vec<PerfStatRecord>>) -> Seq<Seq<PerfStatRecord>> {
    runs.map_values(|v: Vec<PerfStatRecord>| v@)
}

/// All records of all runs, in run order then record order.
pub open spec fn all_records(runs: Seq<Seq<PerfStatRecord>>) -> Seq<PerfStatRecord> {
    runs.flatten()
}

/// Whether a record's event identifier contains the filter as a
/// substring.
pub open spec fn event_matches(r: PerfStatRecord, ev: Seq<u8>) -> bool {
    contains_seq(r.event@, ev)
}

/// The records of `rs` whose event matches the filter, in order.
pub open spec fn matching_records(rs: Seq<PerfStatRecord>, ev: Seq<u8>) -> Seq<PerfStatRecord>
    decreases rs.len(),
{
    if rs.len() == 0 {
        Seq::empty()
    } else if event_matches(rs.last(), ev) {
        matching_records(rs.drop_last(), ev).push(rs.last())
    } else {
        matching_records(rs.drop_last(), ev)
    }
}

/// Whether every record of `rs` has a decodable counter value.
pub open spec fn all_decode(rs: Seq<PerfStatRecord>) -> bool {
    forall|i: int| 0 <= i < rs.len() ==> decode_counter(#[trigger] rs[i].counter_value@) is Some
}

/// The decoded counter value of one record, where it decodes.
pub open spec fn decode_value(r: PerfStatRecord) -> u64 {
    match decode_counter(r.counter_value@) {
        Some(n) => n as u64,
        None => 0,
    }
}

/// The decoded counter values of a record sequence.
pub open spec fn decoded_values(rs: Seq<PerfStatRecord>) -> Seq<u64> {
    rs.map_values(|r: PerfStatRecord| decode_value(r))
}

/// Appending a record extends the matching subsequence exactly when the
/// record matches.
proof fn lemma_matching_push(rs: Seq<PerfStatRecord>, x: PerfStatRecord, ev: Seq<u8>)
    ensures
        matching_records(rs.push(x), ev) == if event_matches(x, ev) {
            matching_records(rs, ev).push(x)
        } else {
            matching_records(rs, ev)
        },
{
    assert(rs.push(x).drop_last() =~= rs);
    assert(rs.push(x).last() == x);
}

/// A matching record with an undecodable counter value makes the whole
/// matching subsequence undecodable.
proof fn lemma_matching_keeps_bad(rs: Seq<PerfStatRecord>, ev: Seq<u8>, k: int)
    requires
        0 <= k < rs.len(),
        event_matches(rs[k], ev),
        decode_counter(rs[k].counter_value@) is None,
    ensures
        !all_decode(matching_records(rs, ev)),
    decreases rs.len(),
{
    let t = rs.drop_last();
    if k == rs.len() - 1 {
        let m = matching_records(rs, ev);
        assert(m.last() == rs[k]);
        assert(!all_decode(m)) by {
            assert(decode_counter(m[m.len() - 1].counter_value@) is None);
        }
    } else {
        lemma_matching_keeps_bad(t, ev, k);
        let mt = matching_records(t, ev);
        let i = choose|i: int|
            0 <= i < mt.len() && decode_counter(#[trigger] mt[i].counter_value@) is None;
        if event_matches(rs.last(), ev) {
            assert(matching_records(rs, ev)[i] == mt[i]);
        }
    }
}

/// Every record of every run stands in the flattened record sequence.
proof fn lemma_flatten_contains_member(runs: Seq<Seq<PerfStatRecord>>, i: int, j: int)
    requires
        0 <= i < runs.len(),
        0 <= j < runs[i].len(),
    ensures
        runs.flatten().contains(runs[i][j]),
    decreases runs.len(),
{
    if i == 0 {
        assert(runs.flatten()[j] == runs[0][j]);
    } else {
        let rest = runs.drop_first();
        lemma_flatten_contains_member(rest, i - 1, j);
        let k = choose|k: int| 0 <= k < rest.flatten().len() && rest.flatten()[k] == rest[i - 1][j];
        assert(runs.flatten()[runs.first().len() + k] == rest.flatten()[k]);
    }
}

/// Taking one more run extends the flattened record sequence by that
/// run's records.
proof fn lemma_flatten_take_step(runs: Seq<Seq<PerfStatRecord>>, ri: int)
    requires
        0 <= ri < runs.len(),
    ensures
        runs.take(ri + 1).flatten() == runs.take(ri).flatten() + runs[ri],
{
    broadcast use Seq::lemma_flatten_push;

    assert(runs.take(ri + 1) =~= runs.take(ri).push(runs[ri]));
    assert(runs.take(ri).push(runs[ri]).flatten() =~= runs.take(ri).flatten() + runs[ri]);
}

/// Collect the decoded counter values of every record, in any run, whose
/// event matches the filter, in encounter order. Fails exactly where some
/// matching record's counter value does not decode.
pub fn decoded_counter_values(perf_stat_runs: &Vec<Vec<PerfStatRecord>>, event: &Vec<u8>) -> (r:
    Result<Vec<u64>, PerfError>)
    ensures
        ({
            let m = matching_records(all_records(runs_view(perf_stat_runs@)), event@);
            &&& r matches Ok(vals) ==> all_decode(m) && vals@ == decoded_values(m)
            &&& r matches Err(e) ==> e == PerfError::ParseError && !all_decode(m)
        }),
{
    let ghost rv = runs_view(perf_stat_runs@);
    let mut vals: Vec<u64> = Vec::new();
    let nruns = perf_stat_runs.len();
    let mut ri: usize = 0;
    while ri < nruns
        invariant
            nruns == perf_stat_runs@.len(),
            rv == runs_view(perf_stat_runs@),
            ri <= nruns,
            all_decode(matching_records(rv.take(ri as int).flatten(), event@)),
            vals@ == decoded_values(matching_records(rv.take(ri as int).flatten(), event@)),
        decreases nruns - ri,
    {
        let run = &perf_stat_runs[ri];
        let nrec = run.len();
        let ghost flat_prefix = rv.take(ri as int).flatten();
        let mut j: usize = 0;
        while j < nrec
            invariant
                nruns == perf_stat_runs@.len(),
                rv == runs_view(perf_stat_runs@),
                ri < nruns,
                flat_prefix == rv.take(ri as int).flatten(),
                nrec == perf_stat_runs@[ri as int]@.len(),
                run == &perf_stat_runs@[ri as int],
                j <= nrec,
                all_decode(matching_records(flat_prefix + run@.take(j as int), event@)),
                vals@ == decoded_values(matching_records(flat_prefix + run@.take(j as int), event@)),
            decreases nrec - j,
        {
            let ghost processed = flat_prefix + run@.take(j as int);
            let rec = &run[j];
            proof {
                assert(flat_prefix + run@.take(j + 1) =~= processed.push(run@[j as int]));
                lemma_matching_push(processed, run@[j as int], event@);
            }
            if contains_subslice(&rec.event, event) {
                match decode_counter_value(&rec.counter_value) {
                    Ok(v) => {
                        vals.push(v);
                        proof {
                            let m = matching_records(processed, event@);
                            assert(decoded_values(m.push(run@[j as int])) =~= decoded_values(
                                m,
                            ).push(decode_value(run@[j as int])));
                        }
                    },
                    Err(_) => {
                        proof {
                            assert(rv[ri as int][j as int] == run@[j as int]);
                            lemma_flatten_contains_member(rv, ri as int, j as int);
                            let flat = all_records(rv);
                            let k = choose|k: int|
                                0 <= k < flat.len() && flat[k] == rv[ri as int][j as int];
                            lemma_matching_keeps_bad(flat, event@, k);
                        }
                        return Err(PerfError::ParseError);
                    },
                }
            }
            j += 1;
        }
        proof {
            lemma_flatten_take_step(rv, ri as int);
            assert(flat_prefix + run@.take(nrec as int) =~= rv.take(ri + 1).flatten());
        }
        ri += 1;
    }
    proof {
        assert(rv.take(nruns as int) =~= rv);
    }
    Ok(vals)
}

/// The least value of a series; the largest machine word where the series
/// is empty.
pub open spec fn seq_min(s: Seq<u64>) -> u64
    decreases s.len(),
{
    if s.len() == 0 {
        u64::MAX
    } else {
        let m = seq_min(s.drop_last());
        if s.last() < m {
            s.last()
        } else {
            m
        }
    }
}

/// The greatest value of a series; zero where the series is empty.
pub open spec fn seq_max(s: Seq<u64>) -> u64
    decreases s.len(),
{
    if s.len() == 0 {
        0
    } else {
        let m = seq_max(s.drop_last());
        if s.last() > m {
            s.last()
        } else {
            m
        }
    }
}

/// Aggregate one event across a set of runs: the decoded counter values of
/// every matching record in encounter order, the magnitude bucket of their
/// minimum, and their maximum.
///
/// Fails with a parse error where a matching counter value does not
/// decode, and with an empty-aggregation error where no record matches the
/// filter, since a bulk minimum or maximum over an empty series is
/// undefined.
pub fn vals_from_perf_stats(perf_stat_runs: &Vec<Vec<PerfStatRecord>>, event: &Vec<u8>) -> (r:
    Result<(Vec<u64>, Magnitude, u64), PerfError>)
    ensures
        ({
            let m = matching_records(all_records(runs_view(perf_stat_runs@)), event@);
            &&& r matches Ok(t) ==> m.len() > 0 && all_decode(m) && t.0@ == decoded_values(m)
                && t.1 == classify_spec(seq_min(decoded_values(m)) as nat) && t.2 == seq_max(
                decoded_values(m),
            )
            &&& r matches Err(e) ==> (e == PerfError::ParseError && !all_decode(m)) || (e
                == PerfError::EmptyAggregation && m.len() == 0)
        }),
{
    let vals = match decoded_counter_values(perf_stat_runs, event) {
        Ok(v) => v,
        Err(e) => {
            return Err(e);
        },
    };
    if vals.len() == 0 {
        return Err(PerfError::EmptyAggregation);
    }
    let n = vals.len();
    let mut mn: u64 = u64::MAX;
    let mut mx: u64 = 0;
    let mut i: usize = 0;
    while i < n
        invariant
            n == vals@.len(),
            i <= n,
            mn == seq_min(vals@.take(i as int)),
            mx == seq_max(vals@.take(i as int)),
        decreases n - i,
    {
        let v = vals[i];
        proof {
            assert(vals@.take(i + 1).drop_last() =~= vals@.take(i as int));
        }
        if v < mn {
            mn = v;
        }
        if v > mx {
            mx = v;
        }
        i += 1;
    }
    proof {
        assert(vals@.take(n as int) =~= vals@);
    }
    let mag = Magnitude::classify(mn);
    Ok((vals, mag, mx))
}

/// The event filter of the wall-clock duration counter: the bytes of
/// `duration_time`.
pub open spec fn duration_event() -> Seq<u8> {
    seq![100u8, 117u8, 114u8, 97u8, 116u8, 105u8, 111u8, 110u8, 95u8, 116u8, 105u8, 109u8, 101u8]
}

/// The event filter of the core cluster's branch-miss counter: the bytes
/// of `cpu_core/branch-misses`.
pub open spec fn branch_misses_event() -> Seq<u8> {
    seq![
        99u8, 112u8, 117u8, 95u8, 99u8, 111u8, 114u8, 101u8, 47u8, 98u8, 114u8, 97u8, 110u8, 99u8,
        104u8, 45u8, 109u8, 105u8, 115u8, 115u8, 101u8, 115u8,
    ]
}

/// The byte string of the wall-clock duration event filter.
pub fn duration_event_bytes() -> (r: Vec<u8>)
    ensures
        r@ == duration_event(),
{
    let mut v: Vec<u8> = Vec::new();
    v.push(100);
    v.push(117);
    v.push(114);
    v.push(97);
    v.push(116);
    v.push(105);
    v.push(111);
    v.push(110);
    v.push(95);
    v.push(116);
    v.push(105);
    v.push(109);
    v.push(101);
    assert(v@ =~= duration_event());
    v
}

/// The byte string of the core cluster's branch-miss event filter.
pub fn branch_misses_event_bytes() -> (r: Vec<u8>)
    ensures
        r@ == branch_misses_event(),
{
    let mut v: Vec<u8> = Vec::new();
    v.push(99);
    v.push(112);
    v.push(117);
    v.push(95);
    v.push(99);
    v.push(111);
    v.push(114);
    v.push(101);
    v.push(47);
    v.push(98);
    v.push(114);
    v.push(97);
    v.push(110);
    v.push(99);
    v.push(104);
    v.push(45);
    v.push(109);
    v.push(105);
    v.push(115);
    v.push(115);
    v.push(101);
    v.push(115);
    assert(v@ =~= branch_misses_event());
    v
}

/// The wall-clock durations of a set of runs, in nanoseconds: the decoded
/// counter values of every record matching the duration event, in
/// encounter order. A consumer converts to seconds by dividing by one
/// billion. Fails exactly where a matching counter value does not decode.
pub fn durations_from_perf_stats(perf_stat_runs: &Vec<Vec<PerfStatRecord>>) -> (r: Result<
    Vec<u64>,
    PerfError,
>)
    ensures
        ({
            let m = matching_records(all_records(runs_view(perf_stat_runs@)), duration_event());
            &&& r matches Ok(vals) ==> all_decode(m) && vals@ == decoded_values(m)
            &&& r matches Err(e) ==> e == PerfError::ParseError && !all_decode(m)
        }),
{
    let ev = duration_event_bytes();
    decoded_counter_values(perf_stat_runs, &ev)
}

/// One extracted branch-miss metric: the metric text of a matching
/// record, or nothing where the record's counter value holds the "not
/// counted" sentinel, which contributes a zero fraction.
pub open spec fn metric_sample_of(r: PerfStatRecord) -> Option<Seq<u8>> {
    if r.counter_value@ == not_counted() {
        None
    } else {
        Some(r.metric_value@)
    }
}

/// The extracted branch-miss metrics of a record sequence.
pub open spec fn metric_samples(rs: Seq<PerfStatRecord>) -> Seq<Option<Seq<u8>>> {
    rs.map_values(|r: PerfStatRecord| metric_sample_of(r))
}

/// The byte strings of a sample series, as one mathematical value.
pub open spec fn samples_view(s: Seq<Option<Vec<u8>>>) -> Seq<Option<Seq<u8>>> {
    s.map_values(
        |o: Option<Vec<u8>>|
            match o {
                None => None,
                Some(v) => Some(v@),
            },
    )
}

/// The branch-miss metric texts of the core cluster across a set of runs:
/// one sample per record matching the branch-miss event, in encounter
/// order. A record whose counter value holds the "not counted" sentinel
/// yields an empty sample, which stands for a zero fraction; any other
/// sample carries the record's metric text, a percentage that a consumer
/// divides by one hundred.
pub fn frac_branch_misses_core_from_perf_stats(perf_stat_runs: &Vec<Vec<PerfStatRecord>>) -> (r:
    Vec<Option<Vec<u8>>>)
    ensures
        samples_view(r@) == metric_samples(
            matching_records(all_records(runs_view(perf_stat_runs@)), branch_misses_event()),
        ),
{
    let ghost rv = runs_view(perf_stat_runs@);
    let event = branch_misses_event_bytes();
    let mut out: Vec<Option<Vec<u8>>> = Vec::new();
    let nruns = perf_stat_runs.len();
    let mut ri: usize = 0;
    while ri < nruns
        invariant
            nruns == perf_stat_runs@.len(),
            rv == runs_view(perf_stat_runs@),
            event@ == branch_misses_event(),
            ri <= nruns,
            samples_view(out@) == metric_samples(
                matching_records(rv.take(ri as int).flatten(), branch_misses_event()),
            ),
        decreases nruns - ri,
    {
        let run = &perf_stat_runs[ri];
        let nrec = run.len();
        let ghost flat_prefix = rv.take(ri as int).flatten();
        let mut j: usize = 0;
        while j < nrec
            invariant
                nruns == perf_stat_runs@.len(),
                rv == runs_view(perf_stat_runs@),
                event@ == branch_misses_event(),
                ri < nruns,
                flat_prefix == rv.take(ri as int).flatten(),
                nrec == perf_stat_runs@[ri as int]@.len(),
                run == &perf_stat_runs@[ri as int],
                j <= nrec,
                samples_view(out@) == metric_samples(
                    matching_records(flat_prefix + run@.take(j as int), branch_misses_event()),
                ),
            decreases nrec - j,
        {
            let ghost processed = flat_prefix + run@.take(j as int);
            let rec = &run[j];
            proof {
                assert(flat_prefix + run@.take(j + 1) =~= processed.push(run@[j as int]));
                lemma_matching_push(processed, run@[j as int], branch_misses_event());
            }
            if contains_subslice(&rec.event, &event) {
                let sample: Option<Vec<u8>> = if is_not_counted(&rec.counter_value) {
                    None
                } else {
                    Some(clone_bytes(&rec.metric_value))
                };
                out.push(sample);
                proof {
                    let m = matching_records(processed, branch_misses_event());
                    assert(metric_samples(m.push(run@[j as int])) =~= metric_samples(m).push(
                        metric_sample_of(run@[j as int]),
                    ));
                    assert(samples_view(out@) =~= samples_view(out@.drop_last()).push(
                        match out@.last() {
                            None => None,
                            Some(v) => Some(v@),
                        },
                    ));
                }
            }
            j += 1;
        }
        proof {
            lemma_flatten_take_step(rv, ri as int);
            assert(flat_prefix + run@.take(nrec as int) =~= rv.take(ri + 1).flatten());
        }
        ri += 1;
    }
    proof {
        assert(rv.take(nruns as int) =~= rv);
    }
    out
}

/// The records of `rs` whose event equals `ev` exactly, in order.
pub open spec fn records_with_event(rs: Seq<PerfStatRecord>, ev: Seq<u8>) -> Seq<PerfStatRecord>
    decreases rs.len(),
{
    if rs.len() == 0 {
        Seq::empty()
    } else if rs.last().event@ == ev {
        records_with_event(rs.drop_last(), ev).push(rs.last())
    } else {
        records_with_event(rs.drop_last(), ev)
    }
}

/// Whether every record of `rs` has a counter value that the plain
/// truncation rule decodes.
pub open spec fn all_plain_decode(rs: Seq<PerfStatRecord>) -> bool {
    forall|i: int| 0 <= i < rs.len() ==> decode_digits(#[trigger] rs[i].counter_value@) is Some
}

/// The decoded counter value of the last record of `rs`, or zero where
/// `rs` is empty.
pub open spec fn last_plain_value(rs: Seq<PerfStatRecord>) -> u64 {
    if rs.len() == 0 {
        0
    } else {
        match decode_digits(rs.last().counter_value@) {
            Some(n) => n as u64,
            None => 0,
        }
    }
}

/// Appending a record extends the exact-event subsequence exactly when
/// the record's event equals the filter.
proof fn lemma_with_event_push(rs: Seq<PerfStatRecord>, x: PerfStatRecord, ev: Seq<u8>)
    ensures
        records_with_event(rs.push(x), ev) == if x.event@ == ev {
            records_with_event(rs, ev).push(x)
        } else {
            records_with_event(rs, ev)
        },
{
    assert(rs.push(x).drop_last() =~= rs);
    assert(rs.push(x).last() == x);
}

/// A record with the exact event and an undecodable counter value makes
/// the whole exact-event subsequence undecodable.
proof fn lemma_with_event_keeps_bad(rs: Seq<PerfStatRecord>, ev: Seq<u8>, k: int)
    requires
        0 <= k < rs.len(),
        rs[k].event@ == ev,
        decode_digits(rs[k].counter_value@) is None,
    ensures
        !all_plain_decode(records_with_event(rs, ev)),
    decreases rs.len(),
{
    let t = rs.drop_last();
    if k == rs.len() - 1 {
        let m = records_with_event(rs, ev);
        assert(m.last() == rs[k]);
        assert(!all_plain_decode(m)) by {
            assert(decode_digits(m[m.len() - 1].counter_value@) is None);
        }
    } else {
        lemma_with_event_keeps_bad(t, ev, k);
        let mt = records_with_event(t, ev);
        let i = choose|i: int|
            0 <= i < mt.len() && decode_digits(#[trigger] mt[i].counter_value@) is None;
        if rs.last().event@ == ev {
            assert(records_with_event(rs, ev)[i] == mt[i]);
        }
    }
}

/// The instruction count of one parsed export: the decoded counter value
/// of the last record whose event equals the filter exactly, or zero
/// where none does. Every record with that event must decode by the plain
/// truncation rule, the sentinel included, so an uncounted instruction
/// record fails with a parse error.
pub fn instructions_for_event(records: &Vec<PerfStatRecord>, event: &Vec<u8>) -> (r: Result<
    u64,
    PerfError,
>)
    ensures
        ({
            let m = records_with_event(records@, event@);
            &&& r matches Ok(v) ==> all_plain_decode(m) && v == last_plain_value(m)
            &&& r matches Err(e) ==> e == PerfError::ParseError && !all_plain_decode(m)
        }),
{
    let n = records.len();
    let mut value: u64 = 0;
    let mut i: usize = 0;
    while i < n
        invariant
            n == records@.len(),
            i <= n,
            all_plain_decode(records_with_event(records@.take(i as int), event@)),
            value == last_plain_value(records_with_event(records@.take(i as int), event@)),
        decreases n - i,
    {
        let rec = &records[i];
        proof {
            assert(records@.take(i + 1) =~= records@.take(i as int).push(records@[i as int]));
            lemma_with_event_push(records@.take(i as int), records@[i as int], event@);
        }
        if bytes_eq(&rec.event, event) {
            match parse_truncated(&rec.counter_value) {
                Ok(v) => {
                    value = v;
                    proof {
                        let m = records_with_event(records@.take(i as int), event@);
                        assert(records_with_event(records@.take(i + 1), event@).last()
                            == records@[i as int]);
                        assert(forall|q: int|
                            0 <= q < m.len() ==> m.push(records@[i as int])[q] == #[trigger] m[q]);
                    }
                },
                Err(_) => {
                    proof {
                        lemma_with_event_keeps_bad(records@, event@, i as int);
                    }
                    return Err(PerfError::ParseError);
                },
            }
        }
        i += 1;
    }
    proof {
        assert(records@.take(n as int) =~= records@);
    }
    Ok(value)
}

} // verus!
