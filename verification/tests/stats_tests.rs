use coldstart::numeric::Decimal;
use coldstart::stats::{reduce, ResultField, Stats};

fn dec(units: u64, frac: u64, scale: u8) -> Decimal {
    Decimal { units, frac, scale }
}

fn field(name: &str, value: &str) -> ResultField {
    ResultField { field: name.to_string(), value: value.to_string() }
}

#[test]
fn update_memory_size_sets_only_mem() {
    let mut s = Stats::default();
    s.update("memorySize", "128").unwrap();
    let mut expected = Stats::default();
    expected.mem = 128;
    assert_eq!(s, expected);
}

#[test]
fn update_count_sets_only_count() {
    let mut s = Stats::default();
    s.update("count", "7").unwrap();
    let mut expected = Stats::default();
    expected.count = 7;
    assert_eq!(s, expected);
}

#[test]
fn update_stddev_sets_only_stddev() {
    let mut s = Stats::default();
    s.update("stddev", "3.25").unwrap();
    let mut expected = Stats::default();
    expected.stddev = dec(3, 25, 2);
    assert_eq!(s, expected);
}

#[test]
fn update_min_sets_only_min() {
    let mut s = Stats::default();
    s.update("min", "80.1").unwrap();
    let mut expected = Stats::default();
    expected.min = dec(80, 1, 1);
    assert_eq!(s, expected);
}

#[test]
fn update_max_sets_only_max() {
    let mut s = Stats::default();
    s.update("max", "900").unwrap();
    let mut expected = Stats::default();
    expected.max = dec(900, 0, 0);
    assert_eq!(s, expected);
}

#[test]
fn update_p50_sets_only_p50() {
    let mut s = Stats::default();
    s.update("p50", "120.5").unwrap();
    let mut expected = Stats::default();
    expected.p50 = dec(120, 5, 1);
    assert_eq!(s, expected);
}

#[test]
fn update_p75_sets_only_p75() {
    let mut s = Stats::default();
    s.update("p75", "130.75").unwrap();
    let mut expected = Stats::default();
    expected.p75 = dec(130, 75, 2);
    assert_eq!(s, expected);
}

#[test]
fn update_p99_sets_only_p99() {
    let mut s = Stats::default();
    s.update("p99", "250.0").unwrap();
    let mut expected = Stats::default();
    expected.p99 = dec(250, 0, 1);
    assert_eq!(s, expected);
}

#[test]
fn update_p995_sets_only_p995() {
    let mut s = Stats::default();
    s.update("p995", "300.25").unwrap();
    let mut expected = Stats::default();
    expected.p995 = dec(300, 25, 2);
    assert_eq!(s, expected);
}

#[test]
fn update_p999_sets_only_p999() {
    let mut s = Stats::default();
    s.update("p999", "415.125").unwrap();
    let mut expected = Stats::default();
    expected.p999 = dec(415, 125, 3);
    assert_eq!(s, expected);
}

#[test]
fn update_unrecognized_field_leaves_record_unchanged() {
    let mut s = Stats::default();
    s.update("somethingElse", "not even numeric").unwrap();
    assert_eq!(s, Stats::default());
}

#[test]
fn update_trims_whitespace_around_field_name() {
    let mut s = Stats::default();
    s.update("  p50 \t", "9.5").unwrap();
    let mut expected = Stats::default();
    expected.p50 = dec(9, 5, 1);
    assert_eq!(s, expected);
}

#[test]
fn update_non_numeric_count_is_parse_error() {
    let mut s = Stats::default();
    let err = s.update("count", "seven").unwrap_err();
    assert_eq!(err.field, "count");
    assert_eq!(err.value, "seven");
    // never a silent default: the record is untouched
    assert_eq!(s, Stats::default());
}

#[test]
fn update_non_numeric_duration_is_parse_error() {
    let mut s = Stats::default();
    let err = s.update("p99", "12.3.4").unwrap_err();
    assert_eq!(err.field, "p99");
    assert_eq!(err.value, "12.3.4");
    assert_eq!(s, Stats::default());
}

#[test]
fn update_rejects_empty_and_malformed_numbers() {
    let mut s = Stats::default();
    assert!(s.update("p50", "").is_err());
    assert!(s.update("p50", "-1.5").is_err());
    assert!(s.update("p50", "1e3").is_err());
    assert!(s.update("p50", "1.").is_err());
    assert!(s.update("p50", ".5").is_err());
    assert!(s.update("count", "").is_err());
    assert!(s.update("count", " 7").is_err());
    assert_eq!(s, Stats::default());
}

#[test]
fn update_count_bounds() {
    let mut s = Stats::default();
    s.update("count", "4294967295").unwrap();
    assert_eq!(s.count, 4294967295);
    assert!(s.update("count", "4294967296").is_err());
    s.update("count", "007").unwrap();
    assert_eq!(s.count, 7);
}

#[test]
fn update_duration_accepts_plain_integers() {
    let mut s = Stats::default();
    s.update("min", "42").unwrap();
    assert_eq!(s.min, dec(42, 0, 0));
}

#[test]
fn reduce_keeps_group_with_key_and_drops_zero_key_group() {
    let groups = vec![
        vec![field("memorySize", "128"), field("p50", "120.5")],
        vec![field("p50", "99.9"), field("count", "3")],
    ];
    let out = reduce(&groups).unwrap();
    assert_eq!(out.len(), 1);
    assert_eq!(out[0].mem, 128);
    assert_eq!(out[0].p50, dec(120, 5, 1));
}

#[test]
fn reduce_of_no_groups_is_empty() {
    let groups: Vec<Vec<ResultField>> = vec![];
    assert_eq!(reduce(&groups).unwrap().len(), 0);
}

#[test]
fn reduce_fails_on_first_malformed_value() {
    let groups = vec![
        vec![field("memorySize", "128"), field("count", "bad"), field("p50", "also-bad")],
        vec![field("memorySize", "256")],
    ];
    let err = reduce(&groups).unwrap_err();
    assert_eq!(err.field, "count");
    assert_eq!(err.value, "bad");
}

#[test]
fn reduce_later_field_overwrites_earlier_one() {
    let groups = vec![vec![
        field("memorySize", "128"),
        field("count", "1"),
        field("count", "2"),
    ]];
    let out = reduce(&groups).unwrap();
    assert_eq!(out[0].count, 2);
}
