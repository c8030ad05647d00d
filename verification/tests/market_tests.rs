use hyperliquid_telegram_bot::market::{extract_valid_coins, AssetInfo, CoinCache, WsTrade};
use hyperliquid_telegram_bot::registry::FeedRegistry;

fn asset(name: &str, delisted: Option<bool>) -> AssetInfo {
    AssetInfo {
        name: name.to_string(),
        is_delisted: delisted,
    }
}

#[test]
fn extracts_listed_coins_uppercased_and_deduplicated() {
    let universe = vec![
        asset("btc", None),
        asset("Eth", Some(false)),
        asset("old", Some(true)),
        asset("BTC", None),
    ];
    let coins = extract_valid_coins(&universe);
    assert_eq!(coins, vec!["BTC".to_string(), "ETH".to_string()]);
}

#[test]
fn coin_cache_refresh_policy() {
    let mut cache = CoinCache::new();
    assert!(cache.needs_refresh(0));
    cache.update(vec!["BTC".to_string()], 1_000);
    assert!(!cache.needs_refresh(1_000));
    assert!(!cache.needs_refresh(1_000 + 21_600_000 - 1));
    assert!(cache.needs_refresh(1_000 + 21_600_000));
    // a monotonic clock running "backwards" still answers
    assert!(!cache.needs_refresh(0));
}

#[test]
fn coin_cache_lookup_is_canonical() {
    let mut cache = CoinCache::new();
    cache.update(vec!["BTC".to_string(), "ETH".to_string()], 5);
    assert!(cache.coin_exists("btc"));
    assert!(cache.coin_exists("ETH"));
    assert!(!cache.coin_exists("SOL"));
}

#[test]
fn trade_notional_in_fixed_point() {
    let t = WsTrade {
        coin: "BTC".to_string(),
        side: "B".to_string(),
        px: "60000".to_string(),
        sz: "0.5".to_string(),
    };
    assert_eq!(t.notional_usd_e16(), Some(30_000u128 * 10u128.pow(16)));
    let bad = WsTrade {
        coin: "BTC".to_string(),
        side: "B".to_string(),
        px: "?".to_string(),
        sz: "1".to_string(),
    };
    assert_eq!(bad.notional_usd_e16(), None);
}

#[test]
fn registry_keeps_one_feed_per_symbol() {
    let mut r = FeedRegistry::new();
    assert!(!r.is_active(&"BTC".to_string()));
    assert!(r.ensure("BTC".to_string()));
    assert!(!r.ensure("BTC".to_string()));
    assert!(r.is_active(&"BTC".to_string()));
    assert!(r.ensure("ETH".to_string()));
    assert!(r.stop(&"BTC".to_string()));
    assert!(!r.is_active(&"BTC".to_string()));
    assert!(r.is_active(&"ETH".to_string()));
    assert!(!r.stop(&"BTC".to_string()));
}
