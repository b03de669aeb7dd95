//! Lifecycle of the trading connection: connect, authenticate, detect
//! closure and reconnect after a fixed delay, for as long as the process runs.

use crate::message::{first_of, opt_view, or_empty, route, route_of, InboundMessage, Route};
use crate::tracker::{acknowledged, classify_status, status_kind, AckReport, RequestTracker};
use vstd::prelude::*;

verus! {

/// Milliseconds between a lost or failed connection and the next attempt.
pub const RECONNECT_DELAY_MS: u64 = 3000;

#[derive(Clone, Copy, Debug, PartialEq, Eq, Structural)]
pub enum ConnectionState {
    Disconnected,
    Connecting,
    Connected,
    Authenticating,
    Authenticated,
    Closed,
}

/// What the driver of a session reports back to it.
#[derive(Clone, Copy, Debug, PartialEq, Eq, Structural)]
pub enum SessionEvent {
    /// It is time to (re)connect.
    ConnectDue,
    /// The transport was established.
    ConnectSucceeded,
    /// The connection attempt failed.
    ConnectFailed,
    /// The authentication frame went out.
    AuthSent,
    /// The exchange accepted the authentication.
    AuthAccepted,
    /// The exchange rejected the authentication.
    AuthRejected,
    /// A close frame or a transport error on an open connection.
    TransportLost,
    /// The process is shutting down.
    Shutdown,
}

/// What the driver must do next.
#[derive(Clone, Copy, Debug, PartialEq, Eq, Structural)]
pub enum SessionAction {
    Connect,
    SendAuth,
    /// Wait this many milliseconds, then report `ConnectDue`.
    WaitThenReconnect(u64),
    Nothing,
}

pub open spec fn is_open(s: ConnectionState) -> bool {
    s == ConnectionState::Connected || s == ConnectionState::Authenticating || s == ConnectionState::Authenticated
}

/// The transition relation of a session.
pub open spec fn step_spec(s: ConnectionState, e: SessionEvent) -> (ConnectionState, SessionAction) {
    let reconnect = (ConnectionState::Disconnected, SessionAction::WaitThenReconnect(RECONNECT_DELAY_MS));
    let stay = (s, SessionAction::Nothing);
    if s == ConnectionState::Closed {
        stay
    } else {
        match e {
            SessionEvent::Shutdown => (ConnectionState::Closed, SessionAction::Nothing),
            SessionEvent::ConnectDue => if s == ConnectionState::Disconnected {
                (ConnectionState::Connecting, SessionAction::Connect)
            } else {
                stay
            },
            SessionEvent::ConnectSucceeded => if s == ConnectionState::Connecting {
                (ConnectionState::Connected, SessionAction::SendAuth)
            } else {
                stay
            },
            SessionEvent::ConnectFailed => if s == ConnectionState::Connecting {
                reconnect
            } else {
                stay
            },
            SessionEvent::AuthSent => if s == ConnectionState::Connected {
                (ConnectionState::Authenticating, SessionAction::Nothing)
            } else {
                stay
            },
            SessionEvent::AuthAccepted => if s == ConnectionState::Authenticating {
                (ConnectionState::Authenticated, SessionAction::Nothing)
            } else {
                stay
            },
            SessionEvent::AuthRejected => stay,
            SessionEvent::TransportLost => if is_open(s) {
                reconnect
            } else {
                stay
            },
        }
    }
}

/// The state of one trading session.
pub struct Session {
    pub state: ConnectionState,
}

impl Session {
    /// A session that has not connected yet.
    pub fn new() -> (r: Self)
        ensures
            r.state == ConnectionState::Disconnected,
    {
        Session { state: ConnectionState::Disconnected }
    }

    /// Whether the exchange has accepted this session's authentication on the
    /// current connection.
    pub fn is_authenticated(&self) -> (r: bool)
        ensures
            r == (self.state == ConnectionState::Authenticated),
    {
        self.state == ConnectionState::Authenticated
    }

    /// Applies one event and returns what to do next.
    pub fn step(&mut self, e: SessionEvent) -> (r: SessionAction)
        ensures
            (final(self).state, r) == step_spec(old(self).state, e),
    {
        let s = self.state;
        let (next, action) = if s == ConnectionState::Closed {
            (s, SessionAction::Nothing)
        } else {
            match e {
                SessionEvent::Shutdown => (ConnectionState::Closed, SessionAction::Nothing),
                SessionEvent::ConnectDue => if s == ConnectionState::Disconnected {
                    (ConnectionState::Connecting, SessionAction::Connect)
                } else {
                    (s, SessionAction::Nothing)
                },
                SessionEvent::ConnectSucceeded => if s == ConnectionState::Connecting {
                    (ConnectionState::Connected, SessionAction::SendAuth)
                } else {
                    (s, SessionAction::Nothing)
                },
                SessionEvent::ConnectFailed => if s == ConnectionState::Connecting {
                    (ConnectionState::Disconnected, SessionAction::WaitThenReconnect(RECONNECT_DELAY_MS))
                } else {
                    (s, SessionAction::Nothing)
                },
                SessionEvent::AuthSent => if s == ConnectionState::Connected {
                    (ConnectionState::Authenticating, SessionAction::Nothing)
                } else {
                    (s, SessionAction::Nothing)
                },
                SessionEvent::AuthAccepted => if s == ConnectionState::Authenticating {
                    (ConnectionState::Authenticated, SessionAction::Nothing)
                } else {
                    (s, SessionAction::Nothing)
                },
                SessionEvent::AuthRejected => (s, SessionAction::Nothing),
                SessionEvent::TransportLost => if s == ConnectionState::Connected
                    || s == ConnectionState::Authenticating || s == ConnectionState::Authenticated {
                    (ConnectionState::Disconnected, SessionAction::WaitThenReconnect(RECONNECT_DELAY_MS))
                } else {
                    (s, SessionAction::Nothing)
                },
            }
        };
        self.state = next;
        action
    }
}

/// The state after a run of events.
pub open spec fn state_after(s: ConnectionState, events: Seq<SessionEvent>) -> ConnectionState
    decreases events.len(),
{
    if events.len() == 0 {
        s
    } else {
        step_spec(state_after(s, events.drop_last()), events.last()).0
    }
}

/// The actions issued along a run of events.
pub open spec fn actions_of(s: ConnectionState, events: Seq<SessionEvent>) -> Seq<SessionAction>
    decreases events.len(),
{
    if events.len() == 0 {
        Seq::empty()
    } else {
        actions_of(s, events.drop_last()).push(step_spec(state_after(s, events.drop_last()), events.last()).1)
    }
}

/// `n` connection attempts that all fail.
pub open spec fn failing_attempts(n: nat) -> Seq<SessionEvent>
    decreases n,
{
    if n == 0 {
        Seq::empty()
    } else {
        failing_attempts((n - 1) as nat) + seq![SessionEvent::ConnectDue, SessionEvent::ConnectFailed]
    }
}

/// The driver's work for `n` failed attempts: connect, then wait the fixed
/// delay, each time.
pub open spec fn retry_actions(n: nat) -> Seq<SessionAction>
    decreases n,
{
    if n == 0 {
        Seq::empty()
    } else {
        retry_actions((n - 1) as nat) + seq![SessionAction::Connect, SessionAction::WaitThenReconnect(RECONNECT_DELAY_MS)]
    }
}

/// A session whose every connection attempt fails never gives up: after any
/// number of failures it is disconnected and waiting, each failure was
/// followed by the fixed delay, and the next `ConnectDue` makes it try again.
pub proof fn retries_forever(n: nat)
    ensures
        state_after(ConnectionState::Disconnected, failing_attempts(n)) == ConnectionState::Disconnected,
        actions_of(ConnectionState::Disconnected, failing_attempts(n)) == retry_actions(n),
        step_spec(ConnectionState::Disconnected, SessionEvent::ConnectDue)
            == (ConnectionState::Connecting, SessionAction::Connect),
    decreases n,
{
    if n > 0 {
        retries_forever((n - 1) as nat);
        let prev = failing_attempts((n - 1) as nat);
        let evs = failing_attempts(n);
        assert(evs.drop_last() =~= prev.push(SessionEvent::ConnectDue));
        assert(prev.push(SessionEvent::ConnectDue).drop_last() =~= prev);
        let d = ConnectionState::Disconnected;
        let mid = prev.push(SessionEvent::ConnectDue);
        assert(mid.last() == SessionEvent::ConnectDue);
        assert(state_after(d, mid) == ConnectionState::Connecting);
        assert(actions_of(d, mid) == actions_of(d, prev).push(SessionAction::Connect));
        assert(evs.last() == SessionEvent::ConnectFailed);
        assert(actions_of(d, evs) == actions_of(d, mid).push(SessionAction::WaitThenReconnect(RECONNECT_DELAY_MS)));
        assert(actions_of(d, evs) =~= retry_actions(n));
    }
}

/// Only a shutdown closes a session: no failure or rejection does.
pub proof fn only_shutdown_closes(s: ConnectionState, e: SessionEvent)
    requires
        s != ConnectionState::Closed,
        e != SessionEvent::Shutdown,
    ensures
        step_spec(s, e).0 != ConnectionState::Closed,
        is_open(s) && e == SessionEvent::TransportLost ==> step_spec(s, e) == (
            ConnectionState::Disconnected,
            SessionAction::WaitThenReconnect(RECONNECT_DELAY_MS),
        ),
{
}

/// What handling one inbound frame amounted to.
pub enum Handled {
    /// The exchange accepted the authentication; the account's uid if given.
    AuthAccepted { uid: Option<String> },
    /// The exchange refused the authentication, with its status and reason.
    AuthRejected { status: Option<String>, reason: Option<String> },
    Heartbeat,
    /// An acknowledgment of a tracked order, and what it showed.
    OrderAck { report: AckReport, error: Option<String> },
    /// An order acknowledgment for no outstanding request.
    UntrackedAck,
    Ignored,
}

/// The status with which the exchange accepts an authentication.
pub open spec fn auth_ok(status: Option<String>) -> bool {
    opt_view(status) == Some("200"@)
}

impl Session {
    /// Handles one inbound frame received at `now`: records an accepted
    /// authentication, and correlates order acknowledgments through `tracker`.
    pub fn handle(&mut self, tracker: &mut RequestTracker, m: &InboundMessage, now: u64) -> (r: Handled)
        requires
            old(tracker).wf(),
        ensures
            final(tracker).wf(),
            route_of(m.channel@, m.event@) != Route::OrderAck ==> final(tracker)@ == old(tracker)@,
            route_of(m.channel@, m.event@) == Route::Login ==> if auth_ok(m.status) {
                &&& r matches Handled::AuthAccepted { uid } && opt_view(uid) == opt_view(m.uid)
                &&& final(self).state == step_spec(old(self).state, SessionEvent::AuthAccepted).0
            } else {
                &&& r matches Handled::AuthRejected { status, reason }
                    && opt_view(status) == opt_view(m.status) && opt_view(reason) == opt_view(m.auth_error)
                &&& final(self).state == old(self).state
            },
            route_of(m.channel@, m.event@) != Route::Login ==> final(self).state == old(self).state,
            route_of(m.channel@, m.event@) == Route::Heartbeat ==> r is Heartbeat,
            route_of(m.channel@, m.event@) == Route::Ignored ==> r is Ignored,
            route_of(m.channel@, m.event@) == Route::OrderAck ==> match m.request_id {
                Some(id) if id@.len() > 0 && old(tracker)@.contains_key(id@) => {
                    let status = status_kind(or_empty(opt_view(m.status)));
                    &&& r matches Handled::OrderAck { report, error }
                        && acknowledged(old(tracker)@, id@, now as nat, status, Some(report), final(tracker)@)
                        && opt_view(error) == if status == crate::tracker::AckStatus::Rejected {
                            first_of(opt_view(m.order_error), Some("Unknown error"@))
                        } else {
                            None
                        }
                },
                _ => r is UntrackedAck && final(tracker)@ == old(tracker)@,
            },
    {
        match route(m) {
            Route::Login => {
                let ok = match &m.status {
                    Some(s) => *s == String::from_str("200"),
                    None => false,
                };
                if ok {
                    let _ = self.step(SessionEvent::AuthAccepted);
                    Handled::AuthAccepted { uid: copy_text(&m.uid) }
                } else {
                    Handled::AuthRejected { status: copy_text(&m.status), reason: copy_text(&m.auth_error) }
                }
            },
            Route::Heartbeat => Handled::Heartbeat,
            Route::Ignored => Handled::Ignored,
            Route::OrderAck => {
                let id = match &m.request_id {
                    Some(id) => id,
                    None => return Handled::UntrackedAck,
                };
                if id.as_str().is_empty() {
                    return Handled::UntrackedAck;
                }
                let status = match &m.status {
                    Some(s) => classify_status(s),
                    None => classify_status(&String::from_str("unknown")),
                };
                proof {
                    reveal_strlit("unknown");
                    reveal_strlit("201");
                    reveal_strlit("400");
                    if m.status.is_none() {
                        assert("unknown"@.len() == 7);
                        assert("201"@.len() == 3);
                        assert("400"@.len() == 3);
                        assert(or_empty(opt_view(m.status)).len() == 0);
                    }
                    assert(status == status_kind(or_empty(opt_view(m.status))));
                }
                match tracker.acknowledge(id, now, status) {
                    None => Handled::UntrackedAck,
                    Some(report) => {
                        let error = if status == crate::tracker::AckStatus::Rejected {
                            match &m.order_error {
                                Some(e) => Some(e.clone()),
                                None => Some(String::from_str("Unknown error")),
                            }
                        } else {
                            None
                        };
                        Handled::OrderAck { report, error }
                    },
                }
            },
        }
    }
}

fn copy_text(o: &Option<String>) -> (r: Option<String>)
    ensures
        opt_view(r) == opt_view(*o),
{
    match o {
        Some(s) => Some(s.clone()),
        None => None,
    }
}

} // verus!
