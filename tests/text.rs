use rentals::filter::{contains_ignoring_case, source_from_folded_name, source_from_name, text_equals};
use rentals::model::Source;
use rentals::snapshot::{has_parquet_extension, latest_numbered, latest_parquet, parse_i32, SnapshotFile};
use rentals::text::{int_to_text, text_contains, trim_text};

#[test]
fn integers_render_in_decimal() {
    assert_eq!(int_to_text(0), "0");
    assert_eq!(int_to_text(1234567), "1234567");
    assert_eq!(int_to_text(-90), "-90");
    assert_eq!(int_to_text(i64::MIN), "-9223372036854775808");
    assert_eq!(int_to_text(i64::MAX), "9223372036854775807");
}

#[test]
fn trimming_and_searching() {
    assert_eq!(trim_text(" \t a b \n"), "a b");
    assert_eq!(trim_text("   "), "");
    assert!(text_contains("apartment", "part"));
    assert!(text_contains("abc", ""));
    assert!(!text_contains("ab", "abc"));
    assert!(text_equals("daft", "daft"));
    assert!(!text_equals("daft", "Daft"));
}

#[test]
fn case_folding_goes_through_lowercase() {
    assert!(contains_ignoring_case("Semi-Detached HOUSE", "house"));
    assert!(!contains_ignoring_case("Flat", "house"));
    assert_eq!(source_from_name("PROPERTY"), Some(Source::PropertyIe));
    assert_eq!(source_from_folded_name("PROPERTY"), None);
    assert_eq!(source_from_folded_name("myhome"), Some(Source::MyHome));
}

#[test]
fn integers_parse_as_std_does() {
    assert_eq!(parse_i32("2024"), Some(2024));
    assert_eq!(parse_i32("07"), Some(7));
    assert_eq!(parse_i32("+5"), Some(5));
    assert_eq!(parse_i32("-2147483648"), Some(i32::MIN));
    assert_eq!(parse_i32("2147483648"), None);
    assert_eq!(parse_i32("-"), None);
    assert_eq!(parse_i32(""), None);
    assert_eq!(parse_i32("12a"), None);
    for t in ["0", "-17", "99999", "+0"] {
        assert_eq!(parse_i32(t), t.parse::<i32>().ok());
    }
}

#[test]
fn latest_numbered_entry_wins() {
    let names: Vec<String> = ["2023", "notes", "2025", "2024", "02025"].iter().map(|n| n.to_string()).collect();
    assert_eq!(latest_numbered(&names), Some(4));
    let none: Vec<String> = vec!["x".to_string()];
    assert_eq!(latest_numbered(&none), None);
}

#[test]
fn latest_parquet_file_wins() {
    assert!(has_parquet_extension("a.parquet"));
    assert!(!has_parquet_extension(".parquet"));
    assert!(!has_parquet_extension("a.parquet.tmp"));
    let files = vec![
        SnapshotFile { name: "old.parquet".to_string(), modified_nanos: Some(10) },
        SnapshotFile { name: "new.csv".to_string(), modified_nanos: Some(99) },
        SnapshotFile { name: "new.parquet".to_string(), modified_nanos: Some(20) },
        SnapshotFile { name: "unknown.parquet".to_string(), modified_nanos: None },
    ];
    assert_eq!(latest_parquet(&files), Some(2));
    assert_eq!(latest_parquet(&files[1..2].iter().map(|f| SnapshotFile { name: f.name.clone(), modified_nanos: f.modified_nanos }).collect()), None);
}
