//! Inbound frames: reading the fields the protocol uses out of a JSON text,
//! with the header-then-root fallback, and routing by channel and event.

use vstd::prelude::*;

verus! {

/// Whether serde_json accepts a text as one JSON value.
pub uninterp spec fn json_accepts(text: Seq<char>) -> bool;

/// What a JSON text holds at a JSON pointer: `None` when nothing is there
/// (or the text is not JSON), `Some(None)` for a value that is not a
/// string, `Some(Some(s))` for the string `s`.
pub uninterp spec fn json_field_of(text: Seq<char>, pointer: Seq<char>) -> Option<Option<Seq<char>>>;

/// Relies on serde_json::from_str: it returns a value exactly for the texts
/// that are well-formed JSON, which depends on the text alone.
#[verifier::external_body]
pub(crate) fn json_valid(text: &str) -> (r: bool)
    ensures
        r == json_accepts(text@),
{
    serde_json::from_str::<serde_json::Value>(text).is_ok()
}

/// Relies on serde_json::from_str, then serde_json::Value::pointer and
/// serde_json::Value::as_str: the member that the pointer reaches, which
/// depends on the text and the pointer alone.
#[verifier::external_body]
pub(crate) fn json_field(text: &str, pointer: &str) -> (r: Field)
    ensures
        field_view(r) == json_field_of(text@, pointer@),
{
    match serde_json::from_str::<serde_json::Value>(text) {
        Err(_) => Field::Absent,
        Ok(v) => match v.pointer(pointer) {
            None => Field::Absent,
            Some(x) => match x.as_str() {
                Some(t) => Field::Text(t.to_string()),
                None => Field::NotText,
            },
        },
    }
}

/// One field of a frame, as found at one place in it.
#[derive(Debug)]
pub enum Field {
    Absent,
    Text(String),
    /// Present, but not a string.
    NotText,
}

/// A field as the JSON pointer lookup describes it.
pub open spec fn field_view(f: Field) -> Option<Option<Seq<char>>> {
    match f {
        Field::Absent => None,
        Field::NotText => Some(None),
        Field::Text(s) => Some(Some(s@)),
    }
}

pub open spec fn field_text(f: Field) -> Option<Seq<char>> {
    match f {
        Field::Text(s) => Some(s@),
        _ => None,
    }
}

/// A field read from the header when the header has it, else from the root;
/// a present header field that is not a string hides the root one.
pub open spec fn header_or_root(header: Field, root: Field) -> Option<Seq<char>> {
    match header {
        Field::Absent => field_text(root),
        _ => field_text(header),
    }
}

pub open spec fn opt_view(o: Option<String>) -> Option<Seq<char>> {
    match o {
        Some(s) => Some(s@),
        None => None,
    }
}

/// Resolves a field found in the header and at the root.
pub fn resolve(header: Field, root: Field) -> (r: Option<String>)
    ensures
        opt_view(r) == header_or_root(header, root),
{
    match header {
        Field::Absent => match root {
            Field::Text(s) => Some(s),
            _ => None,
        },
        Field::Text(s) => Some(s),
        Field::NotText => None,
    }
}

/// The fields of an inbound frame, each as found in the header and at the
/// root, before the two places are merged.
pub struct RawInbound {
    pub header_channel: Field,
    pub root_channel: Field,
    pub header_event: Field,
    pub root_event: Field,
    pub header_status: Field,
    pub root_status: Field,
    pub header_request_id: Field,
    pub root_request_id: Field,
    /// `header.message`.
    pub header_message: Field,
    /// The root `error`.
    pub root_error: Field,
    /// `result.message`.
    pub result_message: Field,
    /// `data.result.uid`.
    pub uid: Field,
}

/// An inbound frame in one canonical shape, whichever shape the wire used.
pub struct InboundMessage {
    /// Empty when the frame names no channel.
    pub channel: String,
    /// Empty when the frame names no event.
    pub event: String,
    pub status: Option<String>,
    pub request_id: Option<String>,
    /// The header's message, else the root error.
    pub auth_error: Option<String>,
    /// The header's message, else the result's message.
    pub order_error: Option<String>,
    pub uid: Option<String>,
}

pub open spec fn or_empty(o: Option<Seq<char>>) -> Seq<char> {
    match o {
        Some(s) => s,
        None => Seq::empty(),
    }
}

pub open spec fn first_of(a: Option<Seq<char>>, b: Option<Seq<char>>) -> Option<Seq<char>> {
    if a.is_some() {
        a
    } else {
        b
    }
}

/// The canonical message for a set of raw fields.
pub open spec fn normalized(raw: RawInbound, m: InboundMessage) -> bool {
    &&& m.channel@ == or_empty(header_or_root(raw.header_channel, raw.root_channel))
    &&& m.event@ == or_empty(header_or_root(raw.header_event, raw.root_event))
    &&& opt_view(m.status) == header_or_root(raw.header_status, raw.root_status)
    &&& opt_view(m.request_id) == header_or_root(raw.header_request_id, raw.root_request_id)
    &&& opt_view(m.auth_error) == header_or_root(raw.header_message, raw.root_error)
    &&& opt_view(m.order_error) == header_or_root(raw.header_message, raw.result_message)
    &&& opt_view(m.uid) == field_text(raw.uid)
}

fn text_or_empty(o: Option<String>) -> (r: String)
    ensures
        r@ == or_empty(opt_view(o)),
{
    match o {
        Some(s) => s,
        None => String::new(),
    }
}

fn copy_field(f: &Field) -> (r: Field)
    ensures
        r == *f,
{
    match f {
        Field::Absent => Field::Absent,
        Field::Text(s) => Field::Text(s.clone()),
        Field::NotText => Field::NotText,
    }
}

fn text_of(f: Field) -> (r: Option<String>)
    ensures
        opt_view(r) == field_text(f),
{
    match f {
        Field::Text(s) => Some(s),
        _ => None,
    }
}

/// Merges the header and root fields of a frame into its canonical shape.
pub fn normalize(raw: RawInbound) -> (r: InboundMessage)
    ensures
        normalized(raw, r),
{
    let header_message = copy_field(&raw.header_message);
    let channel = text_or_empty(resolve(raw.header_channel, raw.root_channel));
    let event = text_or_empty(resolve(raw.header_event, raw.root_event));
    let status = resolve(raw.header_status, raw.root_status);
    let request_id = resolve(raw.header_request_id, raw.root_request_id);
    let auth_error = resolve(header_message, raw.root_error);
    let order_error = resolve(raw.header_message, raw.result_message);
    let uid = text_of(raw.uid);
    InboundMessage { channel, event, status, request_id, auth_error, order_error, uid }
}

/// The raw fields of a frame are what its text holds at each place.
pub open spec fn raw_of_text(text: Seq<char>, raw: RawInbound) -> bool {
    &&& field_view(raw.header_channel) == json_field_of(text, "/header/channel"@)
    &&& field_view(raw.root_channel) == json_field_of(text, "/channel"@)
    &&& field_view(raw.header_event) == json_field_of(text, "/header/event"@)
    &&& field_view(raw.root_event) == json_field_of(text, "/event"@)
    &&& field_view(raw.header_status) == json_field_of(text, "/header/status"@)
    &&& field_view(raw.root_status) == json_field_of(text, "/status"@)
    &&& field_view(raw.header_request_id) == json_field_of(text, "/header/request_id"@)
    &&& field_view(raw.root_request_id) == json_field_of(text, "/request_id"@)
    &&& field_view(raw.header_message) == json_field_of(text, "/header/message"@)
    &&& field_view(raw.root_error) == json_field_of(text, "/error"@)
    &&& field_view(raw.result_message) == json_field_of(text, "/result/message"@)
    &&& field_view(raw.uid) == json_field_of(text, "/data/result/uid"@)
}

/// Reads the raw fields of a JSON frame; `None` when it is not JSON.
pub fn read_inbound(text: &str) -> (r: Option<RawInbound>)
    ensures
        r.is_some() == json_accepts(text@),
        r matches Some(raw) ==> raw_of_text(text@, raw),
{
    if !json_valid(text) {
        return None;
    }
    Some(RawInbound {
        header_channel: json_field(text, "/header/channel"),
        root_channel: json_field(text, "/channel"),
        header_event: json_field(text, "/header/event"),
        root_event: json_field(text, "/event"),
        header_status: json_field(text, "/header/status"),
        root_status: json_field(text, "/status"),
        header_request_id: json_field(text, "/header/request_id"),
        root_request_id: json_field(text, "/request_id"),
        header_message: json_field(text, "/header/message"),
        root_error: json_field(text, "/error"),
        result_message: json_field(text, "/result/message"),
        uid: json_field(text, "/data/result/uid"),
    })
}

/// Parses a frame into its canonical shape; `None` when it is not JSON.
pub fn parse_inbound(text: &str) -> (r: Option<InboundMessage>)
    ensures
        r.is_some() == json_accepts(text@),
        r matches Some(m) ==> message_of_text(text@, m),
{
    match read_inbound(text) {
        None => None,
        Some(raw) => {
            let ghost g = raw;
            let m = normalize(raw);
            assert(normalized(g, m));
            Some(m)
        },
    }
}

/// A field read from the header when the header has it, else from the root,
/// as the lookups of a text describe the two places.
pub open spec fn header_or_root_of(header: Option<Option<Seq<char>>>, root: Option<Option<Seq<char>>>) -> Option<Seq<char>> {
    match header {
        None => match root {
            Some(Some(s)) => Some(s),
            _ => None,
        },
        Some(h) => h,
    }
}

pub open spec fn lookup_text(f: Option<Option<Seq<char>>>) -> Option<Seq<char>> {
    match f {
        Some(Some(s)) => Some(s),
        _ => None,
    }
}

/// The canonical message of a frame's text: each field from the header when
/// the header has it, else from the root.
pub open spec fn message_of_text(text: Seq<char>, m: InboundMessage) -> bool {
    let f = |p: Seq<char>| json_field_of(text, p);
    &&& m.channel@ == or_empty(header_or_root_of(f("/header/channel"@), f("/channel"@)))
    &&& m.event@ == or_empty(header_or_root_of(f("/header/event"@), f("/event"@)))
    &&& opt_view(m.status) == header_or_root_of(f("/header/status"@), f("/status"@))
    &&& opt_view(m.request_id) == header_or_root_of(f("/header/request_id"@), f("/request_id"@))
    &&& opt_view(m.auth_error) == header_or_root_of(f("/header/message"@), f("/error"@))
    &&& opt_view(m.order_error) == header_or_root_of(f("/header/message"@), f("/result/message"@))
    &&& opt_view(m.uid) == lookup_text(f("/data/result/uid"@))
}

/// Where a frame is handled.
#[derive(Clone, Copy, Debug, PartialEq, Eq, Structural)]
pub enum Route {
    /// The response to the authentication request.
    Login,
    /// A ping or pong.
    Heartbeat,
    /// An acknowledgment of an order.
    OrderAck,
    Ignored,
}

pub open spec fn route_of(channel: Seq<char>, event: Seq<char>) -> Route {
    if channel == "spot.login"@ && event == "api"@ {
        Route::Login
    } else if channel == "spot.ping"@ || channel == "spot.pong"@ {
        Route::Heartbeat
    } else if channel == "spot.order_place"@ && event == "api"@ {
        Route::OrderAck
    } else {
        Route::Ignored
    }
}

/// Routes a frame by its channel and event, in priority order.
pub fn route(m: &InboundMessage) -> (r: Route)
    ensures
        r == route_of(m.channel@, m.event@),
{
    let api = m.event == String::from_str("api");
    if m.channel == String::from_str("spot.login") && api {
        Route::Login
    } else if m.channel == String::from_str("spot.ping") || m.channel == String::from_str("spot.pong") {
        Route::Heartbeat
    } else if m.channel == String::from_str("spot.order_place") && api {
        Route::OrderAck
    } else {
        Route::Ignored
    }
}

} // verus!
