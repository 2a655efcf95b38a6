use rust_perf_comp::aggregate::{
    decoded_counter_values, durations_from_perf_stats, frac_branch_misses_core_from_perf_stats,
    instructions_for_event, vals_from_perf_stats,
};
use rust_perf_comp::magnitude::Magnitude;
use rust_perf_comp::record::PerfStatRecord;
use rust_perf_comp::PerfError;

fn b(s: &str) -> Vec<u8> {
    s.as_bytes().to_vec()
}

fn rec(event: &str, counter: &str, metric: &str) -> PerfStatRecord {
    PerfStatRecord {
        counter_value: b(counter),
        unit: b(""),
        event: b(event),
        variance: None,
        event_runtime: 1,
        pcnt_running: b("100.00"),
        metric_value: b(metric),
        metric_unit: b(""),
    }
}

#[test]
fn aggregation_collects_matching_values_in_order() {
    let runs = vec![
        vec![
            rec("cpu_core/instructions:u/", "7000.5", "0"),
            rec("cpu_core/cycles:u/", "123", "0"),
        ],
        vec![rec("cpu_core/instructions:u/", "5", "0")],
    ];
    let (vals, mag, max) =
        vals_from_perf_stats(&runs, &b("cpu_core/instructions")).unwrap();
    assert_eq!(vals, vec![7000, 5]);
    assert_eq!(mag, Magnitude::E0);
    assert_eq!(max, 7000);
}

#[test]
fn magnitude_reports_bucket_of_minimum() {
    let runs = vec![vec![
        rec("cpu_core/instructions:u/", "2000000", "0"),
        rec("cpu_core/instructions:k/", "4000", "0"),
    ]];
    let (vals, mag, max) = vals_from_perf_stats(&runs, &b("cpu_core/instructions")).unwrap();
    assert_eq!(vals, vec![2000000, 4000]);
    assert_eq!(mag, Magnitude::E3);
    assert_eq!(max, 2000000);
}

#[test]
fn not_counted_contributes_zero_without_parse_error() {
    let runs = vec![vec![
        rec("cpu_core/instructions:u/", "<not counted>", "0"),
        rec("cpu_core/instructions:k/", "900", "0"),
    ]];
    let (vals, mag, max) = vals_from_perf_stats(&runs, &b("cpu_core/instructions")).unwrap();
    assert_eq!(vals, vec![0, 900]);
    assert_eq!(mag, Magnitude::E0);
    assert_eq!(max, 900);
}

#[test]
fn no_matching_record_raises_empty_aggregation() {
    let runs = vec![vec![rec("cpu_core/cycles:u/", "123", "0")]];
    assert_eq!(
        vals_from_perf_stats(&runs, &b("cpu_core/instructions")),
        Err(PerfError::EmptyAggregation)
    );
    let empty: Vec<Vec<PerfStatRecord>> = vec![];
    assert_eq!(
        vals_from_perf_stats(&empty, &b("cpu_core/instructions")),
        Err(PerfError::EmptyAggregation)
    );
}

#[test]
fn bad_matching_value_raises_parse_error() {
    let runs = vec![vec![rec("cpu_core/instructions:u/", "oops", "0")]];
    assert_eq!(
        vals_from_perf_stats(&runs, &b("cpu_core/instructions")),
        Err(PerfError::ParseError)
    );
}

#[test]
fn bad_value_outside_filter_is_ignored() {
    let runs = vec![vec![
        rec("cpu_core/cycles:u/", "oops", "0"),
        rec("cpu_core/instructions:u/", "42", "0"),
    ]];
    assert_eq!(decoded_counter_values(&runs, &b("instructions")), Ok(vec![42]));
}

#[test]
fn durations_are_reported_in_nanoseconds() {
    let runs = vec![
        vec![rec("duration_time:u", "1500000000.25", "0")],
        vec![rec("duration_time:u", "<not counted>", "0")],
    ];
    assert_eq!(durations_from_perf_stats(&runs), Ok(vec![1_500_000_000, 0]));
}

#[test]
fn durations_of_no_matching_records_are_empty() {
    let runs = vec![vec![rec("cpu_core/cycles:u/", "123", "0")]];
    assert_eq!(durations_from_perf_stats(&runs), Ok(vec![]));
}

#[test]
fn branch_miss_samples_carry_metric_text() {
    let runs = vec![vec![
        rec("cpu_core/branch-misses:u/", "999", "3.25"),
        rec("cpu_core/cycles:u/", "1", "9.99"),
        rec("cpu_core/branch-misses:k/", "<not counted>", "ignored"),
    ]];
    let samples = frac_branch_misses_core_from_perf_stats(&runs);
    assert_eq!(samples, vec![Some(b("3.25")), None]);
}

#[test]
fn instructions_take_last_exact_event_match() {
    let records = vec![
        rec("cpu_core/instructions:u/", "100", "0"),
        rec("cpu_core/instructions:u/extra", "200", "0"),
        rec("cpu_core/instructions:u/", "300.9", "0"),
    ];
    assert_eq!(
        instructions_for_event(&records, &b("cpu_core/instructions:u/")),
        Ok(300)
    );
}

#[test]
fn instructions_default_to_zero_without_match() {
    let records = vec![rec("cpu_core/cycles:u/", "100", "0")];
    assert_eq!(instructions_for_event(&records, &b("cpu_core/instructions:u/")), Ok(0));
}

#[test]
fn uncounted_instructions_raise_parse_error() {
    let records = vec![rec("cpu_core/instructions:u/", "<not counted>", "0")];
    assert_eq!(
        instructions_for_event(&records, &b("cpu_core/instructions:u/")),
        Err(PerfError::ParseError)
    );
}
