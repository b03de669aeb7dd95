use gate_latency::decimal::{parse_units, Decimal};
use gate_latency::frames::{
    auth_request, build_order, prepare_order, subscribe_request, Credentials, OrderTerms, OrderType, Side,
    TimeInForce,
};
use gate_latency::market::{read_ticker, DisplayThrottle, MarketFeed};
use gate_latency::message::{parse_inbound, read_inbound, resolve, route, Field, Route};
use gate_latency::session::{ConnectionState, Handled, Session, SessionAction, SessionEvent, RECONNECT_DELAY_MS};
use gate_latency::signing::{build_signing_input, sign};
use gate_latency::tracker::{classify_status, AckStatus, RequestTracker};
use gate_latency::trigger::{OrderTrigger, TriggerDecision};

fn s(t: &str) -> String {
    t.to_string()
}

#[test]
fn signature_matches_known_vector() {
    let sig = sign("spot.login", "", 1700000000, "secret");
    assert_eq!(
        sig,
        "fda6efd05e40791f1059365daecc597f520349bd009ecaa64454e137d73a181e6bcdeb466148db04b38adfc8800a2e46ab4e4ac02eee77a8a2a2ece43d6d720c"
    );
    let sig2 = sign("c", "p", 0, "");
    assert_eq!(
        sig2,
        "8bc8eeea756db6f74572d61df8478f02dd96f9df0f04050c18281caea4f321ba0c21b78eac28c37e81d9b6b5eaa715543b579b5b2ddbe83bb2435048a8cc6b48"
    );
}

#[test]
fn signature_is_deterministic_and_input_sensitive() {
    let a = sign("spot.login", "", 1700000000, "k");
    let b = sign("spot.login", "", 1700000000, "k");
    assert_eq!(a, b);
    assert_eq!(a.len(), 128);
    assert_ne!(a, sign("spot.login", "", 1700000001, "k"));
    assert_ne!(a, sign("spot.login", "x", 1700000000, "k"));
    assert_ne!(a, sign("spot.logout", "", 1700000000, "k"));
    assert_ne!(a, sign("spot.login", "", 1700000000, "k2"));
}

#[test]
fn signing_input_layout() {
    assert_eq!(build_signing_input("spot.login", "", 1700000000), b"api\nspot.login\n\n1700000000".to_vec());
    assert_eq!(build_signing_input("a", "b", 0), b"api\na\nb\n0".to_vec());
}

#[test]
fn auth_request_carries_signature() {
    let creds = Credentials { api_key: s("key"), api_secret: s("secret") };
    let r = auth_request(&creds, 1700000000, s("auth-1700000000123"));
    assert_eq!(r.channel, "spot.login");
    assert_eq!(r.event, "api");
    assert_eq!(r.payload.api_key, "key");
    assert_eq!(r.payload.signature, sign("spot.login", "", 1700000000, "secret"));
    assert_eq!(r.payload.timestamp, 1700000000);
    assert_eq!(r.payload.request_id, "auth-1700000000123");
}

#[test]
fn subscribe_frame() {
    let r = subscribe_request(&s("ALCH_USDT"), 7);
    assert_eq!(r.time, 7);
    assert_eq!(r.channel, "spot.book_ticker");
    assert_eq!(r.event, "subscribe");
    assert_eq!(r.payload, vec![s("ALCH_USDT")]);
}

#[test]
fn correlation_latencies_and_delta() {
    let mut t = RequestTracker::new();
    t.begin(s("r1"), 1000);
    assert!(t.is_pending(&s("r1")));
    assert_eq!(t.observe(&s("r1"), 1005), Some(5));
    assert_eq!(t.observe(&s("r1"), 1047), Some(47));
    assert_eq!(t.latencies(&s("r1")), Some(vec![5, 47]));
    assert_eq!(t.observe(&s("other"), 1050), None);
}

#[test]
fn retired_request_is_not_resurrected() {
    let mut t = RequestTracker::new();
    t.begin(s("r1"), 10);
    t.retire(&s("r1"));
    assert_eq!(t.observe(&s("r1"), 20), None);
    assert!(!t.is_pending(&s("r1")));
    assert!(t.acknowledge(&s("r1"), 30, AckStatus::Accepted).is_none());
    t.retire(&s("r1"));
    assert!(!t.is_pending(&s("r1")));
}

#[test]
fn definitive_status_retires_on_first_ack() {
    let mut t = RequestTracker::new();
    t.begin(s("a"), 0);
    t.begin(s("b"), 0);
    let r = t.acknowledge(&s("a"), 9, AckStatus::Rejected).unwrap();
    assert_eq!(r.ack_index, 1);
    assert_eq!(r.latency, 9);
    let sum = r.summary.unwrap();
    assert_eq!(sum.latencies, vec![9]);
    assert_eq!(sum.delta, None);
    assert!(!t.is_pending(&s("a")));
    assert!(t.is_pending(&s("b")));
    let r = t.acknowledge(&s("b"), 4, AckStatus::Other).unwrap();
    assert!(r.summary.is_none());
    assert!(t.is_pending(&s("b")));
}

#[test]
fn status_codes_classified() {
    assert_eq!(classify_status(&s("201")), AckStatus::Accepted);
    assert_eq!(classify_status(&s("400")), AckStatus::Rejected);
    assert_eq!(classify_status(&s("unsolicited-ack")), AckStatus::Other);
    assert_eq!(classify_status(&s("")), AckStatus::Other);
}

fn ack_frame(id: &str, status: &str) -> String {
    format!(
        "{{\"header\":{{\"channel\":\"spot.order_place\",\"event\":\"api\",\"status\":\"{}\",\"request_id\":\"{}\"}},\"result\":{{}}}}",
        status, id
    )
}

#[test]
fn two_acknowledgments_then_late_one_ignored() {
    let mut session = Session::new();
    let mut tracker = RequestTracker::new();
    tracker.begin(s("1700000000123"), 1000);
    let m1 = parse_inbound(&ack_frame("1700000000123", "unsolicited-ack")).unwrap();
    match session.handle(&mut tracker, &m1, 1005) {
        Handled::OrderAck { report, error } => {
            assert_eq!(report.ack_index, 1);
            assert_eq!(report.latency, 5);
            assert_eq!(report.status, AckStatus::Other);
            assert!(report.summary.is_none());
            assert!(error.is_none());
        }
        _ => panic!("expected an order acknowledgment"),
    }
    let m2 = parse_inbound(&ack_frame("1700000000123", "201")).unwrap();
    match session.handle(&mut tracker, &m2, 1047) {
        Handled::OrderAck { report, .. } => {
            assert_eq!(report.ack_index, 2);
            assert_eq!(report.latency, 47);
            let sum = report.summary.unwrap();
            assert_eq!(sum.latencies, vec![5, 47]);
            assert_eq!(sum.delta, Some(42));
        }
        _ => panic!("expected an order acknowledgment"),
    }
    assert!(!tracker.is_pending(&s("1700000000123")));
    let m3 = parse_inbound(&ack_frame("1700000000123", "201")).unwrap();
    assert!(matches!(session.handle(&mut tracker, &m3, 1100), Handled::UntrackedAck));
}

#[test]
fn rejected_order_reports_message() {
    let mut session = Session::new();
    let mut tracker = RequestTracker::new();
    tracker.begin(s("9"), 0);
    let m = parse_inbound(
        "{\"channel\":\"spot.order_place\",\"event\":\"api\",\"status\":\"400\",\"request_id\":\"9\",\"result\":{\"message\":\"bad amount\"}}",
    )
    .unwrap();
    match session.handle(&mut tracker, &m, 3) {
        Handled::OrderAck { report, error } => {
            assert_eq!(report.status, AckStatus::Rejected);
            assert_eq!(error, Some(s("bad amount")));
            assert!(report.summary.is_some());
        }
        _ => panic!("expected an order acknowledgment"),
    }
    tracker.begin(s("10"), 0);
    let m = parse_inbound("{\"channel\":\"spot.order_place\",\"event\":\"api\",\"status\":\"400\",\"request_id\":\"10\"}").unwrap();
    match session.handle(&mut tracker, &m, 3) {
        Handled::OrderAck { error, .. } => assert_eq!(error, Some(s("Unknown error"))),
        _ => panic!("expected an order acknowledgment"),
    }
}

#[test]
fn header_fields_win_over_root() {
    let raw = read_inbound("{\"header\":{\"channel\":\"spot.login\"},\"channel\":\"spot.pong\",\"event\":\"api\"}").unwrap();
    let m = gate_latency::message::normalize(raw);
    assert_eq!(m.channel, "spot.login");
    assert_eq!(m.event, "api");
    assert_eq!(route(&m), Route::Login);
    assert_eq!(resolve(Field::Absent, Field::Text(s("x"))), Some(s("x")));
    assert_eq!(resolve(Field::Text(s("h")), Field::Text(s("x"))), Some(s("h")));
    assert_eq!(resolve(Field::NotText, Field::Text(s("x"))), None);
    assert_eq!(resolve(Field::Absent, Field::NotText), None);
}

#[test]
fn malformed_frame_is_dropped() {
    assert!(parse_inbound("{not json").is_none());
    assert!(read_ticker("").is_none());
    let m = parse_inbound("{}").unwrap();
    assert_eq!(m.channel, "");
    assert_eq!(route(&m), Route::Ignored);
}

#[test]
fn routes_by_channel_and_event() {
    let ping = parse_inbound("{\"channel\":\"spot.pong\",\"event\":\"\"}").unwrap();
    assert_eq!(route(&ping), Route::Heartbeat);
    let other = parse_inbound("{\"channel\":\"spot.order_place\",\"event\":\"update\"}").unwrap();
    assert_eq!(route(&other), Route::Ignored);
    let order = parse_inbound("{\"header\":{\"channel\":\"spot.order_place\",\"event\":\"api\"}}").unwrap();
    assert_eq!(route(&order), Route::OrderAck);
}

#[test]
fn authentication_success_and_failure() {
    let mut tracker = RequestTracker::new();
    let mut session = Session::new();
    for e in [SessionEvent::ConnectDue, SessionEvent::ConnectSucceeded, SessionEvent::AuthSent] {
        session.step(e);
    }
    assert_eq!(session.state, ConnectionState::Authenticating);
    let bad = parse_inbound("{\"header\":{\"channel\":\"spot.login\",\"event\":\"api\",\"status\":\"401\",\"message\":\"invalid key\"}}").unwrap();
    match session.handle(&mut tracker, &bad, 0) {
        Handled::AuthRejected { status, reason } => {
            assert_eq!(status, Some(s("401")));
            assert_eq!(reason, Some(s("invalid key")));
        }
        _ => panic!("expected a rejection"),
    }
    assert!(!session.is_authenticated());
    let ok = parse_inbound(
        "{\"header\":{\"channel\":\"spot.login\",\"event\":\"api\",\"status\":\"200\"},\"data\":{\"result\":{\"uid\":\"42\"}}}",
    )
    .unwrap();
    match session.handle(&mut tracker, &ok, 0) {
        Handled::AuthAccepted { uid } => assert_eq!(uid, Some(s("42"))),
        _ => panic!("expected acceptance"),
    }
    assert!(session.is_authenticated());
    assert_eq!(session.step(SessionEvent::TransportLost), SessionAction::WaitThenReconnect(3000));
    assert_eq!(session.state, ConnectionState::Disconnected);
}

#[test]
fn session_keeps_retrying_failed_connections() {
    let mut session = Session::new();
    for _ in 0..1000 {
        assert_eq!(session.step(SessionEvent::ConnectDue), SessionAction::Connect);
        assert_eq!(session.state, ConnectionState::Connecting);
        assert_eq!(session.step(SessionEvent::ConnectFailed), SessionAction::WaitThenReconnect(RECONNECT_DELAY_MS));
        assert_eq!(session.state, ConnectionState::Disconnected);
    }
    assert_eq!(RECONNECT_DELAY_MS, 3000);
    assert_eq!(session.step(SessionEvent::Shutdown), SessionAction::Nothing);
    assert_eq!(session.state, ConnectionState::Closed);
    assert_eq!(session.step(SessionEvent::ConnectDue), SessionAction::Nothing);
}

#[test]
fn trigger_fires_once() {
    let mut t = OrderTrigger::new();
    assert_eq!(t.evaluate(0, true), TriggerDecision::InvalidPrice);
    assert_eq!(t.evaluate(5, false), TriggerDecision::NotAuthenticated);
    assert!(!t.has_fired());
    assert_eq!(t.evaluate(5, true), TriggerDecision::Fire);
    for p in 1..100u64 {
        assert_eq!(t.evaluate(p, true), TriggerDecision::AlreadyFired);
    }
    assert!(t.has_fired());
}

#[test]
fn decimals_read_exactly() {
    assert_eq!(parse_units("100.5"), Some(10_050_000_000));
    assert_eq!(parse_units("0"), Some(0));
    assert_eq!(parse_units("50"), Some(5_000_000_000));
    assert_eq!(parse_units("0.00000001"), Some(1));
    assert_eq!(parse_units("0.000000001"), None);
    assert_eq!(parse_units(""), None);
    assert_eq!(parse_units("."), None);
    assert_eq!(parse_units("1."), None);
    assert_eq!(parse_units(".5"), None);
    assert_eq!(parse_units("1.2.3"), None);
    assert_eq!(parse_units("-1"), None);
    assert_eq!(parse_units("abc"), None);
    assert_eq!(parse_units("184467440737.09551615"), Some(u64::MAX));
    assert_eq!(parse_units("184467440737.09551616"), None);
    assert_eq!(parse_units("99999999999999999999999"), None);
    let d = Decimal::parse("2.25").unwrap();
    assert_eq!(d.text(), "2.25");
    assert_eq!(d.units(), 225_000_000);
}

#[test]
fn display_is_throttled() {
    let mut th = DisplayThrottle::new();
    assert!(th.observe(10_000_000_000, 0));
    let mut shown = 0;
    for i in 1..=50u64 {
        if th.observe(10_000_000_000 + (i % 3) * 10_000, i * 100) {
            shown += 1;
        }
    }
    assert_eq!(shown, 0);
    assert!(th.observe(10_000_200_000, 5_000));
    assert!(th.observe(10_000_200_000, 10_001));
    assert!(!th.observe(10_000_200_000, 15_001));
}

#[test]
fn end_to_end_single_order() {
    let mut tracker = RequestTracker::new();
    let mut session = Session::new();
    for e in [SessionEvent::ConnectDue, SessionEvent::ConnectSucceeded, SessionEvent::AuthSent] {
        session.step(e);
    }
    let ok = parse_inbound("{\"header\":{\"channel\":\"spot.login\",\"event\":\"api\",\"status\":\"200\"}}").unwrap();
    session.handle(&mut tracker, &ok, 0);
    assert!(session.is_authenticated());

    let mut feed = MarketFeed::new(s("ALCH_USDT"));
    let frame = read_ticker(
        "{\"channel\":\"spot.book_ticker\",\"event\":\"update\",\"result\":{\"s\":\"ALCH_USDT\",\"a\":\"100.5\",\"b\":\"100.4\"}}",
    )
    .unwrap();
    let out = feed.on_frame(&frame, session.is_authenticated(), 1_000);
    assert!(out.valid);
    assert_eq!(out.decision, Some(TriggerDecision::Fire));
    let again = feed.on_frame(&frame, true, 1_100);
    assert_eq!(again.decision, Some(TriggerDecision::AlreadyFired));

    let sample = feed.sample.as_ref().unwrap();
    let terms = OrderTerms {
        pair: s("alch_usdt"),
        side: Side::Buy,
        order_type: OrderType::Limit,
        time_in_force: TimeInForce::Gtc,
        quantity: Decimal::parse("50").unwrap(),
        price: Decimal::parse(&sample.ask.text()).unwrap(),
    };
    let order = prepare_order(&mut tracker, session.is_authenticated(), &terms, &s("1700000011000"), 1700000011, 11_000)
        .unwrap();
    assert_eq!(order.channel, "spot.order_place");
    assert_eq!(order.event, "api");
    assert_eq!(order.payload.param.price, "100.5");
    assert_eq!(order.payload.param.amount, "50");
    assert_eq!(order.payload.param.side, "buy");
    assert_eq!(order.payload.param.order_type, "limit");
    assert_eq!(order.payload.param.time_in_force, "gtc");
    assert_eq!(order.payload.param.currency_pair, "alch_usdt");
    assert!(tracker.is_pending(&s("1700000011000")));
}

#[test]
fn order_skipped_when_not_ready() {
    let terms = OrderTerms {
        pair: s("alch_usdt"),
        side: Side::Sell,
        order_type: OrderType::Market,
        time_in_force: TimeInForce::Ioc,
        quantity: Decimal::parse("0").unwrap(),
        price: Decimal::parse("1").unwrap(),
    };
    assert!(build_order(true, &terms, &s("1"), 0).is_none());
    let mut tracker = RequestTracker::new();
    let terms = OrderTerms { quantity: Decimal::parse("1").unwrap(), ..terms };
    assert!(prepare_order(&mut tracker, false, &terms, &s("1"), 0, 0).is_none());
    assert!(!tracker.is_pending(&s("1")));
    let o = build_order(true, &terms, &s("1"), 0).unwrap();
    assert_eq!(o.payload.param.side, "sell");
    assert_eq!(o.payload.param.order_type, "market");
    assert_eq!(o.payload.param.time_in_force, "ioc");
}

#[test]
fn ticker_for_other_pair_or_bad_price_ignored() {
    let mut feed = MarketFeed::new(s("ALCH_USDT"));
    let other = read_ticker("{\"channel\":\"spot.book_ticker\",\"event\":\"update\",\"result\":{\"s\":\"BTC_USDT\",\"a\":\"1\"}}").unwrap();
    assert!(!feed.on_frame(&other, true, 0).valid);
    let bad = read_ticker("{\"channel\":\"spot.book_ticker\",\"event\":\"update\",\"result\":{\"s\":\"ALCH_USDT\",\"a\":\"x\"}}").unwrap();
    let out = feed.on_frame(&bad, true, 0);
    assert!(!out.valid);
    assert!(out.decision.is_none());
    assert!(feed.sample.is_none());
    assert!(!feed.trigger.has_fired());
}

#[test]
fn pending_request_id_is_not_reused() {
    let mut tracker = RequestTracker::new();
    let terms = OrderTerms {
        pair: s("alch_usdt"),
        side: Side::Buy,
        order_type: OrderType::Limit,
        time_in_force: TimeInForce::Gtc,
        quantity: Decimal::parse("50").unwrap(),
        price: Decimal::parse("100.5").unwrap(),
    };
    assert!(prepare_order(&mut tracker, true, &terms, &s("7"), 0, 100).is_some());
    assert_eq!(tracker.observe(&s("7"), 105), Some(5));
    assert!(prepare_order(&mut tracker, true, &terms, &s("7"), 0, 200).is_none());
    assert_eq!(tracker.latencies(&s("7")), Some(vec![5]));
    assert_eq!(tracker.observe(&s("7"), 110), Some(10));
    tracker.retire(&s("7"));
    let o = prepare_order(&mut tracker, true, &terms, &s("7"), 3, 300).unwrap();
    assert_eq!(o.time, 3);
    assert_eq!(o.payload.request_id, "7");
}

#[test]
fn signature_is_lowercase_hex_of_128_chars() {
    let sig = sign("spot.login", "", 1, "another secret");
    assert_eq!(sig.len(), 128);
    assert!(sig.chars().all(|c| c.is_ascii_digit() || ('a'..='f').contains(&c)));
}

#[test]
fn raw_fields_read_from_each_place() {
    let raw = read_inbound(
        "{\"header\":{\"status\":200,\"message\":\"m\"},\"status\":\"201\",\"request_id\":\"r\",\"error\":\"e\",\"result\":{\"message\":\"x\"},\"data\":{\"result\":{\"uid\":\"u\"}}}",
    )
    .unwrap();
    assert!(matches!(raw.header_status, Field::NotText));
    assert!(matches!(raw.root_status, Field::Text(ref t) if t == "201"));
    assert!(matches!(raw.header_channel, Field::Absent));
    assert!(matches!(raw.root_request_id, Field::Text(ref t) if t == "r"));
    assert!(matches!(raw.header_message, Field::Text(ref t) if t == "m"));
    assert!(matches!(raw.root_error, Field::Text(ref t) if t == "e"));
    assert!(matches!(raw.result_message, Field::Text(ref t) if t == "x"));
    assert!(matches!(raw.uid, Field::Text(ref t) if t == "u"));
    let m = gate_latency::message::normalize(raw);
    assert_eq!(m.status, None);
    assert_eq!(m.request_id, Some(s("r")));
    assert_eq!(m.auth_error, Some(s("m")));
    let t = read_ticker("{\"channel\":\"spot.book_ticker\",\"event\":\"update\",\"result\":{\"s\":\"ALCH_USDT\",\"a\":\"1.5\"}}").unwrap();
    assert!(matches!(t.symbol, Field::Text(ref x) if x == "ALCH_USDT"));
    assert!(matches!(t.ask, Field::Text(ref x) if x == "1.5"));
}
