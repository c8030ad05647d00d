use hyperliquid_telegram_bot::telegram::{
    format_u128, format_usd_e16, help_reply, join_coins, list_reply, normalize_coin_arg,
    start_reply, subscribe_reply, subscribe_usage_reply, trade_alert_message, unsubscribe_reply,
    unsubscribe_usage_reply, StoreWrite, SubscribeFlow,
};

#[test]
fn formats_plain_numbers() {
    assert_eq!(format_u128(0), "0");
    assert_eq!(format_u128(7), "7");
    assert_eq!(format_u128(60000), "60000");
    assert_eq!(format_u128(1002003), "1002003");
}

#[test]
fn formats_dollars_with_two_decimals() {
    assert_eq!(format_usd_e16(60_000u128 * 10u128.pow(16)), "60000.00");
    assert_eq!(format_usd_e16(1_234_560_000_000_000_000), "123.45");
    assert_eq!(format_usd_e16(50_000_000_000_000_000), "5.00");
    assert_eq!(format_usd_e16(0), "0.00");
    // cents are truncated, not rounded
    assert_eq!(format_usd_e16(99_999_999_999_999_999), "9.99");
}

#[test]
fn trade_alert_text_is_exact() {
    let m = trade_alert_message("BTC", "B", "60000", 60_000u128 * 10u128.pow(16));
    assert_eq!(
        m,
        "BTC Trade Alert\n\nAmount: $60000.00\nType: BUY\nPrice: $60000"
    );
    let m = trade_alert_message("ETH", "A", "2500.5", 125u128 * 10u128.pow(14));
    assert_eq!(
        m,
        "ETH Trade Alert\n\nAmount: $1.25\nType: SELL\nPrice: $2500.5"
    );
}

#[test]
fn normalizes_coin_arguments() {
    assert_eq!(normalize_coin_arg(" eth "), Some("ETH".to_string()));
    assert_eq!(normalize_coin_arg("btc"), Some("BTC".to_string()));
    assert_eq!(normalize_coin_arg("SOL"), Some("SOL".to_string()));
    assert_eq!(normalize_coin_arg(""), None);
    assert_eq!(normalize_coin_arg("   "), None);
}

#[test]
fn start_replies() {
    let (m, emit) = start_reply(&StoreWrite::Applied);
    assert!(m.contains("automatically subscribed to BTC"));
    assert!(emit);
    let (m, emit) = start_reply(&StoreWrite::NoChange);
    assert!(m.starts_with("Welcome back"));
    assert!(!emit);
    let (m, emit) = start_reply(&StoreWrite::Failed);
    assert!(m.contains("get started"));
    assert!(!emit);
}

#[test]
fn subscribe_replies() {
    let (m, emit) = subscribe_reply("ETH", &SubscribeFlow::Stored);
    assert_eq!(m, "Successfully subscribed to ETH trades!");
    assert!(emit);
    let (m, emit) = subscribe_reply("ETH", &SubscribeFlow::AlreadyStored);
    assert_eq!(m, "You're already subscribed to ETH trades.");
    assert!(!emit);
    let (m, _) = subscribe_reply("XYZ", &SubscribeFlow::UnknownCoin);
    assert_eq!(
        m,
        "XYZ is not available on Hyperliquid. Use /help to see valid coins."
    );
    let (m, _) = subscribe_reply("ETH", &SubscribeFlow::ValidatorFailed);
    assert_eq!(
        m,
        "Sorry, there was an error validating the coin. Please try again."
    );
    let (m, _) = subscribe_reply("ETH", &SubscribeFlow::StoreFailed);
    assert_eq!(m, "Sorry, there was an error. Please try again.");
}

#[test]
fn unsubscribe_replies() {
    assert_eq!(
        unsubscribe_reply("BTC", &StoreWrite::Applied),
        "Successfully unsubscribed from BTC trades."
    );
    assert_eq!(
        unsubscribe_reply("BTC", &StoreWrite::NoChange),
        "You weren't subscribed to BTC trades."
    );
    assert_eq!(
        unsubscribe_reply("BTC", &StoreWrite::Failed),
        "Sorry, there was an error. Please try again."
    );
}

#[test]
fn list_replies() {
    assert_eq!(
        list_reply(&Some(vec!["BTC".to_string(), "ETH".to_string()])),
        "Your Subscriptions:\n\nBTC, ETH"
    );
    assert!(list_reply(&Some(Vec::new())).contains("not subscribed to any coins"));
    assert!(list_reply(&None).contains("error retrieving"));
}

#[test]
fn joins_and_usage_and_help() {
    assert_eq!(join_coins(&vec!["BTC".to_string()]), "BTC");
    assert_eq!(
        join_coins(&vec!["A".to_string(), "B".to_string(), "C".to_string()]),
        "A, B, C"
    );
    assert_eq!(join_coins(&Vec::new()), "");
    assert!(subscribe_usage_reply().contains("/subscribe ETH"));
    assert!(unsubscribe_usage_reply().contains("/unsubscribe ETH"));
    assert!(help_reply().contains("/list - See all your subscriptions"));
}
