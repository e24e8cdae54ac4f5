use spacetraders::clock::{
    now_millis, parse_rfc3339_millis, parse_utc_datetime_millis, seconds_left_in_transit, to_epoch_seconds,
    wait_for_arrival_seconds,
};
use spacetraders::text::{
    contains_any_of, decimal_text, ends_with, find_text, has_text, int_text, is_one_of, join_text, list_contains,
    parse_u64, starts_with, system_symbol_of, text_eq, to_lowercase,
};

#[test]
fn lowercase_follows_str_to_lowercase() {
    assert_eq!(to_lowercase("MarketPlace HUB"), "marketplace hub");
    assert_eq!(to_lowercase("ÉCOLE"), "école");
}

#[test]
fn text_search_finds_first_occurrence() {
    assert_eq!(find_text("abcabc", "bc"), Some(1));
    assert_eq!(find_text("abc", "x"), None);
    assert_eq!(find_text("abc", ""), Some(0));
    assert!(has_text("SHIP_MINING_LASER_I", "MINING"));
    assert!(!has_text("SHIP_SURVEYOR", "MINING"));
}

#[test]
fn text_comparisons() {
    assert!(text_eq("DOCKED", "DOCKED"));
    assert!(!text_eq("DOCKED", "DOCKE"));
    assert!(ends_with("IRON_ORE", "_ORE"));
    assert!(!ends_with("IRON", "_ORE"));
    assert!(starts_with("SET_VERBOSITY_2", "SET_VERBOSITY_"));
    assert!(!starts_with("SET", "SET_VERBOSITY_"));
    assert!(is_one_of("FOOD", &["DRUGS", "FOOD"]));
    assert!(!is_one_of("FOO", &["DRUGS", "FOOD"]));
    assert!(contains_any_of("RAW_IRON_ORE_X", &["COPPER", "IRON_ORE"]));
    let list = vec!["A".to_string(), "B".to_string()];
    assert!(list_contains(&list, "B"));
    assert!(!list_contains(&list, "C"));
}

#[test]
fn system_symbol_takes_two_parts() {
    assert_eq!(system_symbol_of("X1-N5-BA5F"), "X1-N5");
    assert_eq!(system_symbol_of("X1-N5"), "X1-N5");
    assert_eq!(system_symbol_of("X1"), "X1");
    assert_eq!(system_symbol_of("A-B-C-D"), "A-B");
}

#[test]
fn parse_u64_matches_std() {
    for s in ["0", "42", "+7", "0007", "18446744073709551615", "18446744073709551616", "", "+", "-1", "1a", " 1"] {
        assert_eq!(parse_u64(s), s.parse::<u64>().ok(), "input {:?}", s);
    }
}

#[test]
fn decimal_writing() {
    assert_eq!(decimal_text(0), "0");
    assert_eq!(decimal_text(1907), "1907");
    assert_eq!(int_text(-42), "-42");
    assert_eq!(int_text(i64::MIN), i64::MIN.to_string());
    assert_eq!(join_text("ab", "cd"), "abcd");
}

#[test]
fn rfc3339_parsing() {
    assert_eq!(parse_rfc3339_millis("2024-01-01T00:00:00Z"), Some(1_704_067_200_000));
    assert_eq!(parse_rfc3339_millis("2024-01-01T00:00:01.500+00:00"), Some(1_704_067_201_500));
    assert_eq!(parse_rfc3339_millis("not a time"), None);
    assert_eq!(parse_utc_datetime_millis("2024-01-01T00:00:00Z"), Some(1_704_067_200_000));
    assert_eq!(parse_utc_datetime_millis("garbage"), None);
}

#[test]
fn clock_reads_the_present() {
    let now = now_millis();
    assert!(now > 1_600_000_000_000);
}

#[test]
fn arrival_waits() {
    assert_eq!(wait_for_arrival_seconds(Some(10_500), 0, 5), 15);
    assert_eq!(wait_for_arrival_seconds(Some(0), 10_000, 5), 5);
    assert_eq!(wait_for_arrival_seconds(Some(-1_500), 0, 3), 3);
    assert_eq!(wait_for_arrival_seconds(None, 0, 5), 30);
    assert_eq!(to_epoch_seconds(-1), -1);
    assert_eq!(to_epoch_seconds(1_999), 1);
    assert_eq!(seconds_left_in_transit(Some(10_999), 1_001), Some(9));
    assert_eq!(seconds_left_in_transit(Some(1_000), 5_000), Some(0));
    assert_eq!(seconds_left_in_transit(None, 0), None);
}
