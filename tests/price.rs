use rentals::price::{parse_price_string, validate_price, Amount};

fn units(text: &str) -> Option<u64> {
    parse_price_string(text).map(|a| a.micros)
}

#[test]
fn normaliser_reads_common_price_forms() {
    assert_eq!(units("€1,500 monthly"), Some(1_500_000_000));
    assert_eq!(units("€1,500/month"), Some(1_500_000_000));
    assert_eq!(units("1500"), Some(1_500_000_000));
}

#[test]
fn normaliser_rejects_blank_sentinel_and_non_numeric() {
    assert_eq!(units(""), None);
    assert_eq!(units("   "), None);
    assert_eq!(units("POA"), None);
    assert_eq!(units(" poa "), None);
    assert_eq!(units("abc"), None);
}

#[test]
fn normaliser_rejects_negative_prices() {
    assert_eq!(units("-5"), None);
    assert_eq!(units("€ -1,500 monthly"), None);
    assert_eq!(units("1500 - 1600"), Some(15_001_600_000_000));
    assert_eq!(units("1500/-month"), Some(1_500_000_000));
}

#[test]
fn normaliser_rejects_zero_and_malformed_numerals() {
    assert_eq!(units("0"), None);
    assert_eq!(units("0.00"), None);
    assert_eq!(units("."), None);
    assert_eq!(units("1.2.3"), None);
    assert_eq!(units("/1500"), None);
}

#[test]
fn normaliser_keeps_fractions_to_six_places() {
    assert_eq!(units("1.5"), Some(1_500_000));
    assert_eq!(units(".25"), Some(250_000));
    assert_eq!(units("7."), Some(7_000_000));
    assert_eq!(units("0.1234567"), Some(123_456));
    assert_eq!(units("€2,345.67 per month"), Some(2_345_670_000));
}

#[test]
fn normaliser_ignores_text_after_the_first_slash() {
    assert_eq!(units("€950 / 12 months"), Some(950_000_000));
}

#[test]
fn normaliser_saturates_huge_amounts() {
    assert_eq!(units("99999999999999999999999"), Some(u64::MAX));
}

#[test]
fn validation_accepts_the_open_interval_only() {
    assert!(!validate_price(Amount { micros: 0 }));
    assert!(validate_price(Amount { micros: 1 }));
    assert!(validate_price(Amount::from_units(1500)));
    assert!(validate_price(Amount { micros: 99_999_999_999 }));
    assert!(!validate_price(Amount::from_units(100_000)));
    assert!(!validate_price(Amount { micros: u64::MAX }));
}

#[test]
fn amount_from_units_scales_and_saturates() {
    assert_eq!(Amount::from_units(3).micros, 3_000_000);
    assert_eq!(Amount::from_units(u64::MAX).micros, u64::MAX);
}
