use rust_perf_comp::record::{
    bytes_eq, clone_bytes, contains_subslice, decode_counter_value, is_not_counted,
    parse_truncated,
};
use rust_perf_comp::PerfError;

fn b(s: &str) -> Vec<u8> {
    s.as_bytes().to_vec()
}

#[test]
fn fractional_part_is_truncated_not_rounded() {
    assert_eq!(decode_counter_value(&b("1234.999")), Ok(1234));
}

#[test]
fn plain_integer_decodes() {
    assert_eq!(decode_counter_value(&b("500")), Ok(500));
    assert_eq!(decode_counter_value(&b("0")), Ok(0));
    assert_eq!(decode_counter_value(&b("18446744073709551615")), Ok(u64::MAX));
}

#[test]
fn not_counted_sentinel_decodes_to_zero() {
    assert_eq!(decode_counter_value(&b("<not counted>")), Ok(0));
    assert!(is_not_counted(&b("<not counted>")));
    assert!(!is_not_counted(&b("<not counted> ")));
    assert!(!is_not_counted(&b("not counted")));
}

#[test]
fn unparseable_counter_values_fail() {
    assert_eq!(decode_counter_value(&b("")), Err(PerfError::ParseError));
    assert_eq!(decode_counter_value(&b("abc")), Err(PerfError::ParseError));
    assert_eq!(decode_counter_value(&b(".5")), Err(PerfError::ParseError));
    assert_eq!(decode_counter_value(&b("12a4.0")), Err(PerfError::ParseError));
    assert_eq!(decode_counter_value(&b("-5")), Err(PerfError::ParseError));
}

#[test]
fn counter_value_beyond_machine_word_fails() {
    assert_eq!(decode_counter_value(&b("18446744073709551616")), Err(PerfError::ParseError));
    assert_eq!(
        decode_counter_value(&b("99999999999999999999999.0")),
        Err(PerfError::ParseError)
    );
}

#[test]
fn truncation_keeps_only_text_before_first_period() {
    assert_eq!(parse_truncated(&b("12.34.56")), Ok(12));
    assert_eq!(parse_truncated(&b("7.")), Ok(7));
    assert_eq!(parse_truncated(&b("<not counted>")), Err(PerfError::ParseError));
}

#[test]
fn event_filters_match_by_substring() {
    assert!(contains_subslice(&b("cpu_core/instructions:u/"), &b("cpu_core/instructions")));
    assert!(contains_subslice(&b("cpu_atom/instructions:u/"), &b("instructions")));
    assert!(!contains_subslice(&b("cpu_core/cycles:u/"), &b("instructions")));
    assert!(contains_subslice(&b("abc"), &b("")));
    assert!(contains_subslice(&b("abc"), &b("abc")));
    assert!(!contains_subslice(&b("ab"), &b("abc")));
}

#[test]
fn byte_helpers() {
    assert!(bytes_eq(&b("duration_time"), &b("duration_time")));
    assert!(!bytes_eq(&b("duration_time"), &b("duration_tim")));
    assert!(!bytes_eq(&b("a"), &b("b")));
    let v = b("metric");
    assert_eq!(clone_bytes(&v), v);
}
