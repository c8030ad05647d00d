use hyperliquid_telegram_bot::coordinator::{
    SubscriptionEvent, TradeAction, TradeCoordinator,
};
use hyperliquid_telegram_bot::market::{UserSubscription, WsTrade};

const MIN_50K_E8: u64 = 50_000 * 100_000_000;

fn trade(coin: &str, side: &str, px: &str, sz: &str) -> WsTrade {
    WsTrade {
        coin: coin.to_string(),
        side: side.to_string(),
        px: px.to_string(),
        sz: sz.to_string(),
    }
}

fn sub(user: i64, chat: i64, coin: &str) -> UserSubscription {
    UserSubscription {
        telegram_user_id: user,
        telegram_chat_id: chat,
        coin: coin.to_string(),
    }
}

#[test]
fn large_trade_notifies_every_subscriber() {
    // threshold $50,000; {coin: BTC, side: B, px: 60000, sz: 1} is $60,000
    let mut c = TradeCoordinator::new(MIN_50K_E8);
    let subs = vec![sub(1, 11, "BTC"), sub(2, 22, "BTC")];
    let action = c.process_trade(&trade("BTC", "B", "60000", "1"), &subs);
    match action {
        TradeAction::Notify { notifications } => {
            assert_eq!(notifications.len(), 2);
            assert_eq!(notifications[0].chat_id, 11);
            assert_eq!(notifications[1].chat_id, 22);
            assert_eq!(notifications[0].coin, "BTC");
            assert_eq!(notifications[0].side, "B");
            assert_eq!(notifications[0].px, "60000");
            assert_eq!(
                notifications[0].notional_usd_e16,
                60_000u128 * 10u128.pow(16)
            );
        }
        _ => panic!("a $60,000 trade must notify"),
    }
}

#[test]
fn small_trade_is_discarded() {
    // {coin: BTC, px: 100, sz: 1} is $100: below the $50,000 threshold
    let mut c = TradeCoordinator::new(MIN_50K_E8);
    let subs = vec![sub(1, 11, "BTC")];
    let action = c.process_trade(&trade("BTC", "B", "100", "1"), &subs);
    assert!(matches!(action, TradeAction::Discard));
}

#[test]
fn unparseable_trade_is_skipped() {
    let mut c = TradeCoordinator::new(MIN_50K_E8);
    let subs = vec![sub(1, 11, "BTC")];
    let action = c.process_trade(&trade("BTC", "B", "sixty", "1"), &subs);
    assert!(matches!(action, TradeAction::Invalid));
}

#[test]
fn trade_without_subscribers_stops_feed() {
    // symbol ETH had one subscriber who left: the next large ETH trade finds
    // an empty list, stops the feed, and notifies nobody
    let mut c = TradeCoordinator::new(MIN_50K_E8);
    assert!(c.check_coin_subscription("ETH"));
    assert!(c.is_feed_active("ETH"));
    let none: Vec<UserSubscription> = Vec::new();
    let action = c.process_trade(&trade("ETH", "B", "60000", "1"), &none);
    match action {
        TradeAction::StopFeed { coin, feed_existed } => {
            assert_eq!(coin, "ETH");
            assert!(feed_existed);
        }
        _ => panic!("a trade without subscribers must stop the feed"),
    }
    assert!(!c.is_feed_active("ETH"));
}

#[test]
fn stop_without_feed_is_benign() {
    let mut c = TradeCoordinator::new(MIN_50K_E8);
    let none: Vec<UserSubscription> = Vec::new();
    let action = c.process_trade(&trade("DOGE", "A", "60000", "1"), &none);
    match action {
        TradeAction::StopFeed { coin, feed_existed } => {
            assert_eq!(coin, "DOGE");
            assert!(!feed_existed);
        }
        _ => panic!("expected a stop"),
    }
}

#[test]
fn subscribe_event_starts_feed_once() {
    // first subscribe event starts the feed; an identical second one is a no-op
    let mut c = TradeCoordinator::new(MIN_50K_E8);
    let ev = SubscriptionEvent::UserSubscribed {
        coin: "btc".to_string(),
    };
    assert!(c.handle_subscription_event(&ev));
    assert!(c.is_feed_active("BTC"));
    assert!(c.is_feed_active("btc"));
    assert!(!c.handle_subscription_event(&ev));
    let ev2 = SubscriptionEvent::UserSubscribed {
        coin: "BTC".to_string(),
    };
    assert!(!c.handle_subscription_event(&ev2));
}

#[test]
fn startup_ensures_each_symbol_once() {
    let mut c = TradeCoordinator::new(MIN_50K_E8);
    let coins = vec!["btc".to_string(), "ETH".to_string(), "BTC".to_string()];
    let started = c.start_feeds(&coins);
    assert_eq!(started, vec!["BTC".to_string(), "ETH".to_string()]);
    assert!(c.is_feed_active("BTC"));
    assert!(c.is_feed_active("ETH"));
    assert!(!c.is_feed_active("SOL"));
}
