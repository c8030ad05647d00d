use hyperliquid_telegram_bot::decimal::{meets_threshold, notional_e16, parse_decimal_e8};

#[test]
fn parse_plain_integer() {
    assert_eq!(parse_decimal_e8("60000"), Some(6_000_000_000_000));
    assert_eq!(parse_decimal_e8("0"), Some(0));
    assert_eq!(parse_decimal_e8("1"), Some(100_000_000));
}

#[test]
fn parse_fractional() {
    assert_eq!(parse_decimal_e8("0.5"), Some(50_000_000));
    assert_eq!(parse_decimal_e8("2.25"), Some(225_000_000));
    assert_eq!(parse_decimal_e8("1.23456789"), Some(123_456_789));
}

#[test]
fn parse_truncates_past_eight_fraction_digits() {
    assert_eq!(parse_decimal_e8("1.234567891"), Some(123_456_789));
    assert_eq!(parse_decimal_e8("0.000000009"), Some(0));
}

#[test]
fn parse_rejects_malformed() {
    assert_eq!(parse_decimal_e8(""), None);
    assert_eq!(parse_decimal_e8("."), None);
    assert_eq!(parse_decimal_e8("1."), None);
    assert_eq!(parse_decimal_e8(".5"), None);
    assert_eq!(parse_decimal_e8("1e5"), None);
    assert_eq!(parse_decimal_e8("-1"), None);
    assert_eq!(parse_decimal_e8("1.2.3"), None);
    assert_eq!(parse_decimal_e8("12a"), None);
}

#[test]
fn parse_rejects_oversized_integer_part() {
    assert_eq!(parse_decimal_e8("12345678901"), None);
    assert_eq!(parse_decimal_e8("9999999999"), Some(999_999_999_900_000_000));
}

#[test]
fn notional_is_price_times_size() {
    // $60,000 x 1 = $60,000, in 1e-16 dollar units
    assert_eq!(
        notional_e16("60000", "1"),
        Some(60_000u128 * 10u128.pow(16))
    );
    // $2.50 x 0.5 = $1.25
    assert_eq!(notional_e16("2.5", "0.5"), Some(125u128 * 10u128.pow(14)));
    assert_eq!(notional_e16("x", "1"), None);
    assert_eq!(notional_e16("1", ""), None);
}

#[test]
fn threshold_comparison_is_exact() {
    let min_e8 = 50_000u64 * 100_000_000; // $50,000
    assert!(meets_threshold("60000", "1", min_e8));
    assert!(meets_threshold("50000", "1", min_e8));
    assert!(!meets_threshold("49999.99999999", "1", min_e8));
    assert!(!meets_threshold("100", "1", min_e8));
    assert!(!meets_threshold("oops", "1", min_e8));
}

#[test]
fn threshold_straddling_pairs() {
    // prices straddling the $50,000 line at size 1, and scaled pairs
    let min_e8: u64 = 50_000 * 100_000_000;
    for cents in 0..200u64 {
        let px = format!("{}.{:02}", 49_999, cents % 100);
        let below = cents < 100;
        let px = if below { px } else { format!("{}.{:02}", 50_000, cents % 100) };
        let expect = !below;
        assert_eq!(
            hyperliquid_telegram_bot::decimal::meets_threshold(&px, "1", min_e8),
            expect,
            "px={}",
            px
        );
    }
    // the product, not either factor, decides
    assert!(hyperliquid_telegram_bot::decimal::meets_threshold("25000", "2", min_e8));
    assert!(!hyperliquid_telegram_bot::decimal::meets_threshold("25000", "1.99999999", min_e8));
}
