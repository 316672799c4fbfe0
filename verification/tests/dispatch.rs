use poloniex_feed::client::{CallbackWrapper, Connection, Subscribtion};
use poloniex_feed::error::PoloniexError;
use poloniex_feed::handler::{Action, HandlerState, PoloniexHandler, TimerToken, TIMER_INTERVAL_MS};
use poloniex_feed::Message;

const TICK_FRAME: &str = "[1002, null, [14,\"0.00002564\",\"0.00002564\",\"0.00002550\",\"-0.08656929\",\"1151.37154082\",\"42898945.60692950\",0,\"0.00002875\",\"0.00002500\"]]";

fn cb(n: u64) -> CallbackWrapper {
    CallbackWrapper { callback: n }
}

#[test]
fn tick_frame_delivers_one_event_to_ticker_subscriber() {
    let handler = PoloniexHandler::new();
    let mut con = Connection::new();
    con.subscribe(Subscribtion::Ticker, 1, cb(7));
    let acts = handler.on_message(&mut con, TICK_FRAME).expect("dispatch");
    assert_eq!(acts.len(), 1);
    match &acts[0] {
        Action::Deliver { targets, event } => {
            assert_eq!(targets, &vec![7]);
            match event {
                Message::Tick(t) => assert_eq!(t.last, "0.00002564"),
                other => panic!("expected a tick event, got {:?}", other),
            }
        },
        other => panic!("expected a delivery, got {:?}", other),
    }
}

#[test]
fn dispatch_preserves_subscription_order() {
    let handler = PoloniexHandler::new();
    let mut con = Connection::new();
    con.subscribe(Subscribtion::Ticker, 1, cb(41));
    con.subscribe(Subscribtion::Ticker, 2, cb(42));
    let acts = handler.on_message(&mut con, TICK_FRAME).expect("dispatch");
    assert_eq!(acts.len(), 1);
    match &acts[0] {
        Action::Deliver { targets, .. } => assert_eq!(targets, &vec![41, 42]),
        other => panic!("expected a delivery, got {:?}", other),
    }
}

#[test]
fn bare_ack_fires_combined_pair_signal_exactly_once() {
    let handler = PoloniexHandler::new();
    let mut con = Connection::new();
    con.subscribe(Subscribtion::BtcEth, 5, cb(9));
    let acts = handler.on_message(&mut con, "[148]").expect("dispatch");
    assert_eq!(acts.len(), 1);
    assert!(matches!(acts[0], Action::Signal { token: 5 }));
    // A second acknowledgment-shaped frame finds the signal consumed.
    let again = handler.on_message(&mut con, "[148]").expect("dispatch");
    assert!(again.is_empty());
}

#[test]
fn heartbeat_frame_does_nothing() {
    let handler = PoloniexHandler::new();
    let mut con = Connection::new();
    con.subscribe(Subscribtion::Ticker, 1, cb(7));
    con.subscribe(Subscribtion::Hearthbeat, 2, cb(8));
    let acts = handler.on_message(&mut con, "[1010]").expect("dispatch");
    assert!(acts.is_empty());
}

#[test]
fn malformed_record_is_dropped_and_neighbours_still_dispatch() {
    let handler = PoloniexHandler::new();
    let mut con = Connection::new();
    // Channel id 50 maps to Unknown; register there.
    con.subscribe(Subscribtion::Unknown, 1, cb(3));
    let frame = "[50, 2, [[\"t\",\"123\",1,\"0.001\",\"2.0\",1500000000],[\"zz\"],[\"o\",1,\"0.002\",\"3.0\"]]]";
    let acts = handler.on_message(&mut con, frame).expect("dispatch");
    assert_eq!(acts.len(), 2);
    match &acts[0] {
        Action::Deliver { targets, event } => {
            assert_eq!(targets, &vec![3]);
            match event {
                Message::Trade(50, t) => assert_eq!(t.id, "123"),
                other => panic!("expected a trade, got {:?}", other),
            }
        },
        other => panic!("expected a delivery, got {:?}", other),
    }
    match &acts[1] {
        Action::Deliver { targets, event } => {
            assert_eq!(targets, &vec![3]);
            match event {
                Message::Order(50, o) => assert_eq!(o.rate, "0.002"),
                other => panic!("expected an order, got {:?}", other),
            }
        },
        other => panic!("expected a delivery, got {:?}", other),
    }
}

#[test]
fn wholly_malformed_frame_is_ignored() {
    let handler = PoloniexHandler::new();
    let mut con = Connection::new();
    con.subscribe(Subscribtion::Ticker, 1, cb(7));
    assert!(handler.on_message(&mut con, "garbage").expect("kept going").is_empty());
    assert!(handler.on_message(&mut con, "{\"a\": true}").expect("kept going").is_empty());
    assert!(handler.on_message(&mut con, "[]").expect("kept going").is_empty());
}

#[test]
fn init_record_acknowledges_market_subscription() {
    let handler = PoloniexHandler::new();
    let mut con = Connection::new();
    con.subscribe(Subscribtion::Unknown, 21, cb(3));
    let frame = "[50, 1, [[\"i\", {\"currencyPair\": \"BTC_X\"}]]]";
    let acts = handler.on_message(&mut con, frame).expect("dispatch");
    // The initialization record fires the signal and decodes as no event.
    assert_eq!(acts.len(), 1);
    assert!(matches!(acts[0], Action::Signal { token: 21 }));
}

#[test]
fn reserved_channels_fail_loudly() {
    let handler = PoloniexHandler::new();
    let mut con = Connection::new();
    for id in [1000u32, 1001, 1003] {
        let frame = format!("[{}, null, []]", id);
        match handler.on_message(&mut con, &frame) {
            Err(PoloniexError::UnhandledChannel(got)) => assert_eq!(got, id),
            other => panic!("expected an unhandled-channel error, got {:?}", other),
        }
    }
}

#[test]
fn receive_timeout_closes_and_releases_waiters() {
    let mut handler = PoloniexHandler::new();
    let opened = handler.on_open();
    assert!(matches!(
        opened[0],
        Action::ArmTimer { timer: TimerToken::Ping, ms: TIMER_INTERVAL_MS }
    ));
    assert_eq!(handler.state(), HandlerState::Open);

    let mut con = Connection::new();
    con.request_close(11);
    let acts = handler.on_timeout(&mut con, TimerToken::ReceiveTimeout);
    assert_eq!(acts.len(), 2);
    assert!(matches!(acts[0], Action::CloseSocket));
    assert!(matches!(acts[1], Action::Signal { token: 11 }));
    assert_eq!(handler.state(), HandlerState::Closing);

    // A subscribe after the close is refused with a send error.
    match con.prepare_subscribe(Subscribtion::Ticker, 1, cb(7)) {
        Err(PoloniexError::SendError) => {},
        other => panic!("expected a send error, got {:?}", other),
    }

    handler.on_close();
    assert_eq!(handler.state(), HandlerState::Closed);
}

#[test]
fn ping_timer_sends_keepalive_only() {
    let mut handler = PoloniexHandler::new();
    let mut con = Connection::new();
    let acts = handler.on_timeout(&mut con, TimerToken::Ping);
    assert_eq!(acts.len(), 1);
    assert!(matches!(acts[0], Action::SendPing));
}

#[test]
fn every_frame_slides_the_receive_window() {
    let mut handler = PoloniexHandler::new();
    let armed = handler.on_frame();
    assert!(matches!(
        armed[0],
        Action::ArmTimer { timer: TimerToken::ReceiveTimeout, ms: TIMER_INTERVAL_MS }
    ));
    // The first armed handle is kept; a later one cancels it.
    assert!(handler.on_new_timeout(TimerToken::ReceiveTimeout, 77).is_empty());
    let cancels = handler.on_new_timeout(TimerToken::ReceiveTimeout, 78);
    assert_eq!(cancels.len(), 1);
    assert!(matches!(cancels[0], Action::CancelTimer { handle: 77 }));
    assert!(handler.on_new_timeout(TimerToken::Ping, 79).is_empty());
}

#[test]
fn subscribe_builds_the_wire_command() {
    let mut con = Connection::new();
    let cmd = con.prepare_subscribe(Subscribtion::Ticker, 1, cb(7)).expect("open");
    assert_eq!(cmd, "{\"command\":\"subscribe\",\"channel\":\"1002\"}");
    let cmd = con
        .prepare_subscribe(Subscribtion::Pair("BTC_ETH".to_string()), 2, cb(8))
        .expect("open");
    assert_eq!(cmd, "{\"command\":\"subscribe\",\"channel\":\"BTC_ETH\"}");
}

#[test]
fn notify_ack_consumes_signals_in_order() {
    let mut con = Connection::new();
    con.subscribe(Subscribtion::BtcEth, 31, cb(1));
    con.subscribe(Subscribtion::BtcEth, 32, cb(2));
    con.subscribe(Subscribtion::Ticker, 33, cb(3));
    let fired = con.notify_ack(&Subscribtion::BtcEth);
    assert_eq!(fired, vec![31, 32]);
    // Consumed: nothing fires twice, other channels are untouched.
    assert_eq!(con.notify_ack(&Subscribtion::BtcEth), Vec::<u64>::new());
    assert_eq!(con.notify_ack(&Subscribtion::Ticker), vec![33]);
}

#[test]
fn close_notification_is_last_writer_wins_and_fires_once() {
    let mut con = Connection::new();
    con.request_close(1);
    con.request_close(2);
    assert_eq!(con.fire_close(), Some(2));
    assert_eq!(con.fire_close(), None);
}
