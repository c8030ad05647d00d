use hyperliquid_telegram_bot::wire::{parse_trade_message, subscribe_message};

#[test]
fn subscribe_message_names_channel_and_coin() {
    assert_eq!(
        subscribe_message("BTC"),
        "{\"method\":\"subscribe\",\"subscription\":{\"type\":\"trades\",\"coin\":\"BTC\"}}"
    );
}

#[test]
fn parses_a_realistic_trade_message() {
    let msg = "{\"channel\":\"trades\",\"data\":[{\"coin\":\"BTC\",\"side\":\"B\",\"px\":\"60000\",\"sz\":\"1\",\"time\":1700000000000,\"hash\":\"0xabc\",\"tid\":123,\"users\":[\"0x1\",\"0x2\"]}]}";
    let trades = parse_trade_message(msg).expect("a trade message must parse");
    assert_eq!(trades.len(), 1);
    assert_eq!(trades[0].coin, "BTC");
    assert_eq!(trades[0].side, "B");
    assert_eq!(trades[0].px, "60000");
    assert_eq!(trades[0].sz, "1");
}

#[test]
fn keeps_trade_order_and_field_order_free() {
    let msg = "{\"data\": [ {\"px\":\"1.5\",\"sz\":\"2\",\"coin\":\"ETH\",\"side\":\"A\"} , {\"coin\":\"SOL\",\"side\":\"B\",\"px\":\"200\",\"sz\":\"0.5\"} ]}";
    let trades = parse_trade_message(msg).expect("must parse");
    assert_eq!(trades.len(), 2);
    assert_eq!(trades[0].coin, "ETH");
    assert_eq!(trades[0].side, "A");
    assert_eq!(trades[0].px, "1.5");
    assert_eq!(trades[1].coin, "SOL");
    assert_eq!(trades[1].sz, "0.5");
}

#[test]
fn parses_an_empty_data_array() {
    let trades = parse_trade_message("{\"data\":[]}").expect("must parse");
    assert_eq!(trades.len(), 0);
}

#[test]
fn tolerates_whitespace() {
    let msg = " {\n\t\"data\" : [ { \"coin\" : \"BTC\" , \"side\" : \"B\" , \"px\" : \"7\" , \"sz\" : \"8\" } ]\n} ";
    let trades = parse_trade_message(msg).expect("must parse");
    assert_eq!(trades.len(), 1);
    assert_eq!(trades[0].px, "7");
}

#[test]
fn rejects_non_trade_messages() {
    // a subscription acknowledgement has no data array
    assert!(parse_trade_message(
        "{\"channel\":\"subscriptionResponse\",\"ok\":true}"
    )
    .is_none());
    assert!(parse_trade_message("").is_none());
    assert!(parse_trade_message("not json").is_none());
    assert!(parse_trade_message("[1,2,3]").is_none());
    // a record missing a required field is no trade
    assert!(parse_trade_message("{\"data\":[{\"coin\":\"BTC\",\"side\":\"B\",\"px\":\"1\"}]}").is_none());
    // trailing garbage after the object
    assert!(parse_trade_message("{\"data\":[]}x").is_none());
}
