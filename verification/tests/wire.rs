use poloniex_feed::client::Subscribtion;
use poloniex_feed::error::DecodeError;
use poloniex_feed::types::{
    decode_envelope, decode_event_list, parse_u32, Order, OrderType, Tick, Trade, TradeType,
};
use poloniex_feed::JsonVal;

const TICK_FRAME: &str = "[1002, null, [14,\"0.00002564\",\"0.00002564\",\"0.00002550\",\"-0.08656929\",\"1151.37154082\",\"42898945.60692950\",0,\"0.00002875\",\"0.00002500\"]]";

fn s(text: &str) -> JsonVal {
    JsonVal::Str(text.to_string())
}

fn u(v: u64) -> JsonVal {
    JsonVal::UInt(v)
}

#[test]
fn from_int_total_mapping() {
    assert!(matches!(Subscribtion::from_int(1000), Subscribtion::Unknown));
    assert!(matches!(Subscribtion::from_int(1001), Subscribtion::TrollBox));
    assert!(matches!(Subscribtion::from_int(1002), Subscribtion::Ticker));
    assert!(matches!(Subscribtion::from_int(1010), Subscribtion::Hearthbeat));
    assert!(matches!(Subscribtion::from_int(148), Subscribtion::BtcEth));
    assert!(matches!(Subscribtion::from_int(0), Subscribtion::Unknown));
    assert!(matches!(Subscribtion::from_int(999), Subscribtion::Unknown));
    assert!(matches!(Subscribtion::from_int(4321), Subscribtion::Unknown));
}

#[test]
fn wire_token_round_trips() {
    for id in [1000u32, 1001, 1002, 1010, 148] {
        let chan = Subscribtion::from_int(id);
        let token = chan.wire_token();
        let back = parse_u32(token.as_str()).expect("token is a decimal id");
        assert_eq!(back, id);
        assert_eq!(Subscribtion::from_int(back), chan);
    }
    let pair = Subscribtion::Pair("BTC_ETH".to_string());
    assert_eq!(pair.wire_token(), "BTC_ETH");
}

#[test]
fn parse_u32_accepts_exactly_decimals_in_range() {
    assert_eq!(parse_u32("0"), Some(0));
    assert_eq!(parse_u32("148"), Some(148));
    assert_eq!(parse_u32("4294967295"), Some(u32::MAX));
    assert_eq!(parse_u32("4294967296"), None);
    assert_eq!(parse_u32("999999999999999999999999"), None);
    assert_eq!(parse_u32(""), None);
    assert_eq!(parse_u32("12a"), None);
    assert_eq!(parse_u32("+5"), None);
    assert_eq!(parse_u32("-5"), None);
    assert_eq!(parse_u32("1 0"), None);
}

#[test]
fn envelope_decodes_tick_frame() {
    let resp = decode_envelope(TICK_FRAME).expect("well-formed envelope");
    assert_eq!(resp.get_event(), 1002);
    assert_eq!(resp.get_sequence(), &None);
    let tick = Tick::from_json(resp.get_data()).expect("tick payload");
    assert_eq!(tick.pair, 14);
    assert_eq!(tick.last, "0.00002564");
    assert_eq!(tick.lowest_ask, "0.00002564");
    assert_eq!(tick.highest_bid, "0.00002550");
    assert_eq!(tick.percent_change, "-0.08656929");
    assert_eq!(tick.base_volume, "1151.37154082");
    assert_eq!(tick.quote_volume, "42898945.60692950");
    assert_eq!(tick.is_frozen, 0);
    assert_eq!(tick.high24, "0.00002875");
    assert_eq!(tick.low24, "0.00002500");
}

#[test]
fn envelope_errors_are_split_by_cause() {
    assert_eq!(decode_envelope("not json at all").unwrap_err(), DecodeError::NotJson);
    assert_eq!(decode_envelope("{\"a\":1}").unwrap_err(), DecodeError::BadShape);
    assert_eq!(decode_envelope("[]").unwrap_err(), DecodeError::BadShape);
    assert_eq!(decode_envelope("[1002]").unwrap_err(), DecodeError::BadShape);
    assert_eq!(decode_envelope("[1002, 7]").unwrap_err(), DecodeError::BadShape);
    assert_eq!(decode_envelope("[\"x\", null, []]").unwrap_err(), DecodeError::BadShape);
    let with_seq = decode_envelope("[148, 1, []]").expect("sequence may be a number");
    assert_eq!(with_seq.get_event(), 148);
    assert_eq!(with_seq.get_sequence(), &Some(1));
}

#[test]
fn event_list_decodes_bare_frames() {
    assert_eq!(decode_event_list("[148]").expect("bare ack"), vec![148]);
    assert_eq!(decode_event_list("[1010]").expect("heartbeat"), vec![1010]);
    assert_eq!(decode_event_list("[]").expect("empty list"), Vec::<u32>::new());
    assert_eq!(decode_event_list("[1, \"x\"]").unwrap_err(), DecodeError::BadShape);
    assert_eq!(decode_event_list("nope").unwrap_err(), DecodeError::NotJson);
}

#[test]
fn trade_record_decodes_positionally() {
    let rec = JsonVal::Arr(vec![
        s("t"),
        s("25509289"),
        u(1),
        s("0.00250000"),
        s("33.00000000"),
        u(1500000000),
    ]);
    let trade = Trade::from_json(&rec).expect("trade shape");
    assert_eq!(trade.marker, "t");
    assert_eq!(trade.id, "25509289");
    assert_eq!(trade.side, 1);
    assert_eq!(trade.rate, "0.00250000");
    assert_eq!(trade.amount, "33.00000000");
    assert_eq!(trade.date, 1500000000);
    assert_eq!(trade.get_id(), 25509289);
    assert!(matches!(trade.get_type(), TradeType::Buy));
    assert_eq!(trade.get_date(), 1500000000);
}

#[test]
fn trade_side_other_than_one_is_a_sell() {
    let rec = JsonVal::Arr(vec![s("t"), s("7"), u(0), s("1"), s("2"), u(3)]);
    let trade = Trade::from_json(&rec).expect("trade shape");
    assert!(matches!(trade.get_type(), TradeType::Sell));
}

#[test]
fn order_record_decodes_positionally() {
    let rec = JsonVal::Arr(vec![s("o"), u(1), s("0.00251000"), s("3.50000000")]);
    let order = Order::from_json(&rec).expect("order shape");
    assert_eq!(order.marker, "o");
    assert_eq!(order.side, 1);
    assert_eq!(order.rate, "0.00251000");
    assert_eq!(order.amount, "3.50000000");
    assert!(matches!(order.get_type(), OrderType::Bid));
    let ask = Order::from_json(&JsonVal::Arr(vec![s("o"), u(0), s("1"), s("2")])).unwrap();
    assert!(matches!(ask.get_type(), OrderType::Ask));
}

#[test]
fn malformed_records_decode_to_nothing() {
    // Wrong length, wrong field types, and non-array shapes all fail.
    assert!(Trade::from_json(&JsonVal::Arr(vec![s("t"), s("1")])).is_none());
    assert!(Trade::from_json(&JsonVal::Arr(vec![
        s("t"),
        s("1"),
        s("not a number"),
        s("1"),
        s("2"),
        u(3),
    ]))
    .is_none());
    assert!(Trade::from_json(&s("t")).is_none());
    assert!(Order::from_json(&JsonVal::Arr(vec![s("o"), u(1), s("1")])).is_none());
    assert!(Order::from_json(&JsonVal::Null).is_none());
    assert!(Tick::from_json(&JsonVal::Arr(vec![u(14), s("1")])).is_none());
}

#[test]
fn oversized_integers_are_rejected() {
    // A numeric field beyond u32 does not fit the record.
    let rec = JsonVal::Arr(vec![s("t"), s("1"), u(4294967296), s("1"), s("2"), u(3)]);
    assert!(Trade::from_json(&rec).is_none());
    let env = decode_envelope("[4294967296, null, []]");
    assert_eq!(env.unwrap_err(), DecodeError::BadShape);
}
