use rust_perf_comp::compose::{
    branching_branchless_durations_over_x, cpu_instructions_series, pair_samples, pair_series,
    sum_series, time_branch_misses_series,
};
use rust_perf_comp::magnitude::Magnitude;
use rust_perf_comp::record::PerfStatRecord;
use rust_perf_comp::PerfError;

fn b(s: &str) -> Vec<u8> {
    s.as_bytes().to_vec()
}

fn rec(event: &str, counter: &str, metric: &str) -> PerfStatRecord {
    PerfStatRecord {
        counter_value: b(counter),
        unit: b(""),
        event: b(event),
        variance: None,
        event_runtime: 1,
        pcnt_running: b("100.00"),
        metric_value: b(metric),
        metric_unit: b(""),
    }
}

#[test]
fn composing_core_and_atom_series_sums_element_wise() {
    let core: Vec<u64> = vec![2, 4, 6];
    let atom: Vec<u64> = vec![1, 1, 1];
    let xs: Vec<u64> = vec![10, 20, 30];
    let total = sum_series(&core, &atom).unwrap();
    assert_eq!(total, vec![3, 5, 7]);
    let pairs = pair_series(&xs, &total).unwrap();
    assert_eq!(pairs, vec![(10, 3), (20, 5), (30, 7)]);
}

#[test]
fn summing_unequal_lengths_is_a_length_mismatch() {
    let a: Vec<u64> = vec![1, 2];
    let c: Vec<u64> = vec![1];
    assert_eq!(sum_series(&a, &c), Err(PerfError::LengthMismatch));
}

#[test]
fn pairing_unequal_lengths_is_a_length_mismatch() {
    let xs: Vec<u64> = vec![10, 20];
    let ys: Vec<u64> = vec![1];
    assert_eq!(pair_series(&xs, &ys), Err(PerfError::LengthMismatch));
    let samples: Vec<Option<Vec<u8>>> = vec![None];
    assert_eq!(pair_samples(&xs, &samples), Err(PerfError::LengthMismatch));
}

#[test]
fn pairing_keeps_positional_order() {
    let xs: Vec<u64> = vec![0, 50, 100];
    let ys: Vec<u64> = vec![7, 8, 9];
    assert_eq!(pair_series(&xs, &ys).unwrap(), vec![(0, 7), (50, 8), (100, 9)]);
    let empty_x: Vec<u64> = vec![];
    let empty_y: Vec<u64> = vec![];
    assert_eq!(pair_series(&empty_x, &empty_y).unwrap(), vec![]);
}

fn one_run(core: &str, atom: &str) -> Vec<PerfStatRecord> {
    vec![
        rec("cpu_core/instructions:u/", core, "0"),
        rec("cpu_atom/instructions:u/", atom, "0"),
    ]
}

#[test]
fn instruction_series_compose_totals_and_shared_magnitude() {
    let xs: Vec<u64> = vec![10, 20];
    let br = vec![one_run("2000", "500"), one_run("4000", "600")];
    let bl = vec![one_run("900", "100"), one_run("800", "200")];
    let out = cpu_instructions_series(&xs, &br, &bl).unwrap();
    // The branching core minimum is 2000 (E3); the branchless core
    // minimum is 800 (E0); the shared unit is the smaller bucket.
    assert_eq!(out.min_magnitude, Magnitude::E0);
    assert_eq!(out.br_core_x, vec![(10, 2000), (20, 4000)]);
    assert_eq!(out.br_atom_x, vec![(10, 500), (20, 600)]);
    assert_eq!(out.br_total_x, vec![(10, 2500), (20, 4600)]);
    assert_eq!(out.bl_total_x, vec![(10, 1000), (20, 1000)]);
    assert_eq!(out.bl_core_x, vec![(10, 900), (20, 800)]);
    assert_eq!(out.bl_atom_x, vec![(10, 100), (20, 200)]);
    // max total: branching 4000 + 600, branchless 900 + 200.
    assert_eq!(out.max_total, 4600);
}

#[test]
fn instruction_series_with_missing_counter_fail_loudly() {
    let xs: Vec<u64> = vec![10];
    let br = vec![one_run("2000", "500")];
    let bl = vec![vec![rec("cpu_core/instructions:u/", "900", "0")]];
    // The branchless runs have no atom counter at all.
    assert!(matches!(cpu_instructions_series(&xs, &br, &bl), Err(PerfError::EmptyAggregation)));
}

#[test]
fn instruction_series_misaligned_with_sweep_fail_loudly() {
    let xs: Vec<u64> = vec![10, 20];
    let br = vec![one_run("2000", "500")];
    let bl = vec![one_run("900", "100")];
    assert!(matches!(cpu_instructions_series(&xs, &br, &bl), Err(PerfError::LengthMismatch)));
}

#[test]
fn durations_pair_with_sweep_values() {
    let xs: Vec<u64> = vec![1, 2];
    let br = vec![
        vec![rec("duration_time:u", "1000000000.9", "0")],
        vec![rec("duration_time:u", "2000000000", "0")],
    ];
    let bl = vec![
        vec![rec("duration_time:u", "500000000", "0")],
        vec![rec("duration_time:u", "<not counted>", "0")],
    ];
    let (brx, blx) = branching_branchless_durations_over_x(&xs, &br, &bl).unwrap();
    assert_eq!(brx, vec![(1, 1_000_000_000), (2, 2_000_000_000)]);
    assert_eq!(blx, vec![(1, 500_000_000), (2, 0)]);
}

#[test]
fn time_branch_misses_series_pair_durations_and_metric_samples() {
    let xs: Vec<u64> = vec![5];
    let br = vec![vec![
        rec("duration_time:u", "1000000000", "0"),
        rec("cpu_core/branch-misses:u/", "10", "2.50"),
    ]];
    let bl = vec![vec![
        rec("duration_time:u", "900000000", "0"),
        rec("cpu_core/branch-misses:u/", "<not counted>", "9.99"),
    ]];
    let out = time_branch_misses_series(&xs, &br, &bl).unwrap();
    assert_eq!(out.br_durations_x, vec![(5, 1_000_000_000)]);
    assert_eq!(out.bl_durations_x, vec![(5, 900_000_000)]);
    assert_eq!(out.br_misses_x, vec![(5, Some(b("2.50")))]);
    assert_eq!(out.bl_misses_x, vec![(5, None)]);
}

#[test]
fn time_branch_misses_series_without_miss_counter_fail_loudly() {
    let xs: Vec<u64> = vec![5];
    let br = vec![vec![rec("duration_time:u", "1000000000", "0")]];
    let bl = vec![vec![rec("duration_time:u", "900000000", "0")]];
    assert!(matches!(time_branch_misses_series(&xs, &br, &bl), Err(PerfError::LengthMismatch)));
}
