//! Outbound frames: market-data subscription, authentication and order
//! placement, as plain values for the transport to encode.

use crate::decimal::Decimal;
use crate::signing::{sign, signature_of};
use crate::tracker::{PendingView, RequestTracker};
use vstd::prelude::*;
use vstd::string::StringSliceAdditionalSpecFns;

verus! {

/// Subscription to a pair's best bid and ask.
pub struct SubscribeRequest {
    pub time: u64,
    pub channel: String,
    pub event: String,
    pub payload: Vec<String>,
}

/// The subscription frame for `pair`, stamped `time` (epoch seconds).
pub fn subscribe_request(pair: &String, time: u64) -> (r: SubscribeRequest)
    ensures
        r.time == time,
        r.channel@ == "spot.book_ticker"@,
        r.event@ == "subscribe"@,
        r.payload@.len() == 1 && r.payload@[0]@ == pair@,
{
    let mut payload: Vec<String> = Vec::new();
    payload.push(pair.clone());
    SubscribeRequest {
        time,
        channel: String::from_str("spot.book_ticker"),
        event: String::from_str("subscribe"),
        payload,
    }
}

/// An account's API credentials.
pub struct Credentials {
    pub api_key: String,
    pub api_secret: String,
}

pub struct AuthPayload {
    pub api_key: String,
    pub signature: String,
    /// Sent as a decimal string.
    pub timestamp: u64,
    pub request_id: String,
}

/// The login request of a trading session.
pub struct AuthRequest {
    pub time: u64,
    pub channel: String,
    pub event: String,
    pub payload: AuthPayload,
}

/// The login request at `ts` (epoch seconds): the key, and the signature of
/// channel `spot.login` with an empty parameter at `ts` under the secret.
pub fn auth_request(creds: &Credentials, ts: u64, request_id: String) -> (r: AuthRequest)
    ensures
        r.time == ts,
        r.channel@ == "spot.login"@,
        r.event@ == "api"@,
        r.payload.api_key@ == creds.api_key@,
        r.payload.signature@ == signature_of(
            "spot.login".spec_bytes(),
            "".spec_bytes(),
            ts as nat,
            vstd::utf8::encode_utf8(creds.api_secret@),
        ),
        r.payload.timestamp == ts,
        r.payload.request_id@ == request_id@,
{
    let signature = sign("spot.login", "", ts, creds.api_secret.as_str());
    AuthRequest {
        time: ts,
        channel: String::from_str("spot.login"),
        event: String::from_str("api"),
        payload: AuthPayload { api_key: creds.api_key.clone(), signature, timestamp: ts, request_id },
    }
}

#[derive(Clone, Copy, Debug, PartialEq, Eq, Structural)]
pub enum Side {
    Buy,
    Sell,
}

#[derive(Clone, Copy, Debug, PartialEq, Eq, Structural)]
pub enum OrderType {
    Limit,
    Market,
}

#[derive(Clone, Copy, Debug, PartialEq, Eq, Structural)]
pub enum TimeInForce {
    /// Good till cancelled.
    Gtc,
    /// Immediate or cancel.
    Ioc,
    /// Pending or cancelled.
    Poc,
    /// Fill or kill.
    Fok,
}

pub open spec fn side_text(s: Side) -> Seq<char> {
    match s {
        Side::Buy => "buy"@,
        Side::Sell => "sell"@,
    }
}

pub open spec fn order_type_text(t: OrderType) -> Seq<char> {
    match t {
        OrderType::Limit => "limit"@,
        OrderType::Market => "market"@,
    }
}

pub open spec fn tif_text(t: TimeInForce) -> Seq<char> {
    match t {
        TimeInForce::Gtc => "gtc"@,
        TimeInForce::Ioc => "ioc"@,
        TimeInForce::Poc => "poc"@,
        TimeInForce::Fok => "fok"@,
    }
}

fn side_wire(s: Side) -> (r: String)
    ensures
        r@ == side_text(s),
{
    match s {
        Side::Buy => String::from_str("buy"),
        Side::Sell => String::from_str("sell"),
    }
}

fn order_type_wire(t: OrderType) -> (r: String)
    ensures
        r@ == order_type_text(t),
{
    match t {
        OrderType::Limit => String::from_str("limit"),
        OrderType::Market => String::from_str("market"),
    }
}

fn tif_wire(t: TimeInForce) -> (r: String)
    ensures
        r@ == tif_text(t),
{
    match t {
        TimeInForce::Gtc => String::from_str("gtc"),
        TimeInForce::Ioc => String::from_str("ioc"),
        TimeInForce::Poc => String::from_str("poc"),
        TimeInForce::Fok => String::from_str("fok"),
    }
}

pub struct OrderParam {
    pub currency_pair: String,
    pub side: String,
    pub order_type: String,
    pub amount: String,
    pub price: String,
    pub time_in_force: String,
}

pub struct OrderPayload {
    pub request_id: String,
    pub param: OrderParam,
}

/// An order placement request. It carries no signature of its own: it rests
/// on the session's authentication.
pub struct OrderRequest {
    pub time: u64,
    pub channel: String,
    pub event: String,
    pub payload: OrderPayload,
}

/// What an order of given terms is.
pub struct OrderTerms {
    pub pair: String,
    pub side: Side,
    pub order_type: OrderType,
    pub time_in_force: TimeInForce,
    pub quantity: Decimal,
    pub price: Decimal,
}

/// The order request for `terms`, stamped `ts`, under `request_id`; `None`,
/// and nothing is sent, when the session is not authenticated or the
/// quantity or the price is not positive.
pub fn build_order(authenticated: bool, terms: &OrderTerms, request_id: &String, ts: u64) -> (r: Option<OrderRequest>)
    ensures
        (authenticated && terms.quantity.units_view() > 0 && terms.price.units_view() > 0) == r.is_some(),
        r matches Some(o) ==> order_frame(o, *terms, request_id@, ts),
{
    if !authenticated || terms.quantity.units() == 0 || terms.price.units() == 0 {
        return None;
    }
    let param = OrderParam {
        currency_pair: terms.pair.clone(),
        side: side_wire(terms.side),
        order_type: order_type_wire(terms.order_type),
        amount: terms.quantity.text(),
        price: terms.price.text(),
        time_in_force: tif_wire(terms.time_in_force),
    };
    Some(OrderRequest {
        time: ts,
        channel: String::from_str("spot.order_place"),
        event: String::from_str("api"),
        payload: OrderPayload { request_id: request_id.clone(), param },
    })
}

/// The frame of an order for `terms`, stamped `ts`, under `request_id`.
pub open spec fn order_frame(o: OrderRequest, terms: OrderTerms, request_id: Seq<char>, ts: u64) -> bool {
    &&& o.time == ts
    &&& o.channel@ == "spot.order_place"@
    &&& o.event@ == "api"@
    &&& o.payload.request_id@ == request_id
    &&& o.payload.param.currency_pair@ == terms.pair@
    &&& o.payload.param.side@ == side_text(terms.side)
    &&& o.payload.param.order_type@ == order_type_text(terms.order_type)
    &&& o.payload.param.time_in_force@ == tif_text(terms.time_in_force)
    &&& o.payload.param.amount@ == terms.quantity.text_view()
    &&& o.payload.param.price@ == terms.price.text_view()
}

/// Builds the order for `terms` and, when there is one to send, starts
/// tracking its acknowledgments from `now`. The order is skipped, and the
/// table left as it was, when the session is not authenticated, the quantity
/// or the price is not positive, or `request_id` is still outstanding.
pub fn prepare_order(
    tracker: &mut RequestTracker,
    authenticated: bool,
    terms: &OrderTerms,
    request_id: &String,
    ts: u64,
    now: u64,
) -> (r: Option<OrderRequest>)
    requires
        old(tracker).wf(),
    ensures
        final(tracker).wf(),
        r.is_some() == (authenticated && terms.quantity.units_view() > 0 && terms.price.units_view() > 0
            && !old(tracker)@.contains_key(request_id@)),
        r.is_some() ==> final(tracker)@ == old(tracker)@.insert(
            request_id@,
            PendingView { sent_at: now as nat, latencies: Seq::empty() },
        ),
        r.is_none() ==> final(tracker)@ == old(tracker)@,
        r matches Some(o) ==> order_frame(o, *terms, request_id@, ts),
{
    if tracker.is_pending(request_id) {
        return None;
    }
    let order = build_order(authenticated, terms, request_id, ts);
    if order.is_some() {
        tracker.begin(request_id.clone(), now);
    }
    order
}

} // verus!
