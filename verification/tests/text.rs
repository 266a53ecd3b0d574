use grafana_watch_dog::text::{contains_ignoring_ascii_case, ends_with, i64_text, is_blank, is_float_text, starts_with, trim, trim_end_char, u64_text};

#[test]
fn formats_integers() {
    assert_eq!(u64_text(0), "0");
    assert_eq!(u64_text(1234567890), "1234567890");
    assert_eq!(u64_text(u64::MAX), u64::MAX.to_string());
    assert_eq!(i64_text(-42), "-42");
    assert_eq!(i64_text(i64::MIN), i64::MIN.to_string());
}

#[test]
fn trims_and_compares() {
    assert_eq!(trim("\u{2003} text \n"), "text");
    assert_eq!(trim("   "), "");
    assert_eq!(trim_end_char("a//", '/'), "a");
    assert!(is_blank("\u{85}\u{2028}"));
    assert!(!is_blank(" x "));
    assert!(starts_with("cpu@x", "cpu@"));
    assert!(!starts_with("cp", "cpu"));
    assert!(ends_with("https://h/v1", "/v1"));
    assert!(!ends_with("v1", "/v1"));
    assert!(contains_ignoring_ascii_case("My-PROMETHEUS", "prometheus"));
    assert!(!contains_ignoring_ascii_case("loki", "prometheus"));
    assert!(is_float_text("-1.5e-3"));
    assert!(!is_float_text("1.5f"));
}
