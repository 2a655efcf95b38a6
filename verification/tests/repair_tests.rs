use rust_perf_comp::repair::clean_perf_stat_json;

fn repair(s: &str) -> String {
    let out = clean_perf_stat_json(&s.as_bytes().to_vec());
    String::from_utf8(out).unwrap()
}

#[test]
fn decimal_comma_becomes_period() {
    assert_eq!(repair("{\"a\":\"500,0\"}"), "[{\"a\":\"500,0\"}]".replace("500,0", "500.0"));
    assert_eq!(repair("12,5"), "[12.5]");
}

#[test]
fn comma_without_digit_neighbors_stays() {
    assert_eq!(repair("a,b"), "[a,b]");
    assert_eq!(repair("1, 2"), "[1, 2]");
    assert_eq!(repair(",1"), "[,1]");
}

#[test]
fn every_decimal_comma_is_rewritten() {
    // Thousands grouping is not distinguished from decimal separators:
    // every digit-flanked comma is rewritten.
    assert_eq!(repair("1,234,567"), "[1.234.567]");
}

#[test]
fn newlines_become_separators() {
    assert_eq!(repair("{\"a\":1}\n{\"a\":2}"), "[{\"a\":1},{\"a\":2}]");
}

#[test]
fn trailing_newline_is_stripped() {
    assert_eq!(repair("{\"a\":1}\n{\"a\":2}\n"), "[{\"a\":1},{\"a\":2}]");
}

#[test]
fn empty_document_repairs_to_empty_array() {
    assert_eq!(repair(""), "[]");
}

#[test]
fn repaired_two_line_export_is_json_array_with_one_element_per_line() {
    let raw = "{\"counter-value\":\"1000,5\",\"event\":\"a\"}\n{\"counter-value\":\"2,0\",\"event\":\"b\"}\n";
    let fixed = repair(raw);
    let v: serde_json::Value = serde_json::from_str(&fixed).unwrap();
    let arr = v.as_array().unwrap();
    assert_eq!(arr.len(), 2);
    assert_eq!(arr[0].get("counter-value").unwrap().as_str().unwrap(), "1000.5");
    assert_eq!(arr[1].get("counter-value").unwrap().as_str().unwrap(), "2.0");
}

#[test]
fn newline_between_digits_stays_a_separator() {
    // A line break between digits becomes a separator comma and is not
    // mistaken for a decimal comma afterwards.
    assert_eq!(repair("1\n2"), "[1,2]");
}
