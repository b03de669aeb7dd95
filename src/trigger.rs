//! The one-shot order trigger: fires a single order once a price and an
//! authenticated session are both available.

use vstd::prelude::*;

verus! {

/// Outcome of evaluating the trigger on one price update.
#[derive(Clone, Copy, Debug, PartialEq, Eq, Structural)]
pub enum TriggerDecision {
    /// This update wins: the order is to be placed.
    Fire,
    /// The order was already fired; nothing more will happen.
    AlreadyFired,
    /// The price is not positive.
    InvalidPrice,
    /// The trading session is not authenticated yet.
    NotAuthenticated,
}

/// The decision for a price update, given whether the trigger already fired.
pub open spec fn decide(fired: bool, price: nat, authenticated: bool) -> TriggerDecision {
    if fired {
        TriggerDecision::AlreadyFired
    } else if price == 0 {
        TriggerDecision::InvalidPrice
    } else if !authenticated {
        TriggerDecision::NotAuthenticated
    } else {
        TriggerDecision::Fire
    }
}

/// A write-once flag guarding the single order submission.
pub struct OrderTrigger {
    fired: bool,
}

impl OrderTrigger {
    pub closed spec fn fired(&self) -> bool {
        self.fired
    }

    /// A trigger that has not fired.
    pub fn new() -> (r: Self)
        ensures
            !r.fired(),
    {
        OrderTrigger { fired: false }
    }

    /// Whether the order has been fired.
    pub fn has_fired(&self) -> (r: bool)
        ensures
            r == self.fired(),
    {
        self.fired
    }

    /// Evaluates one price update (in price units) against the authentication
    /// state; sets the flag when this update fires the order.
    pub fn evaluate(&mut self, price: u64, authenticated: bool) -> (r: TriggerDecision)
        ensures
            r == decide(old(self).fired(), price as nat, authenticated),
            final(self).fired() == (old(self).fired() || r == TriggerDecision::Fire),
    {
        if self.fired {
            TriggerDecision::AlreadyFired
        } else if price == 0 {
            TriggerDecision::InvalidPrice
        } else if !authenticated {
            TriggerDecision::NotAuthenticated
        } else {
            self.fired = true;
            TriggerDecision::Fire
        }
    }
}

/// Whether the flag is set after a run of updates `(price, authenticated)`.
pub open spec fn fired_after(fired: bool, updates: Seq<(nat, bool)>) -> bool
    decreases updates.len(),
{
    if updates.len() == 0 {
        fired
    } else {
        let u = updates.last();
        let f = fired_after(fired, updates.drop_last());
        f || decide(f, u.0, u.1) == TriggerDecision::Fire
    }
}

/// How many updates of a run fire the order.
pub open spec fn fire_count(fired: bool, updates: Seq<(nat, bool)>) -> nat
    decreases updates.len(),
{
    if updates.len() == 0 {
        0
    } else {
        let u = updates.last();
        let f = fired_after(fired, updates.drop_last());
        fire_count(fired, updates.drop_last()) + if decide(f, u.0, u.1) == TriggerDecision::Fire { 1nat } else { 0nat }
    }
}

/// Whatever updates arrive, in whatever order, at most one of them fires the
/// order, and none does once the flag is set.
pub proof fn fires_at_most_once(fired: bool, updates: Seq<(nat, bool)>)
    ensures
        fire_count(fired, updates) <= 1,
        fired ==> fire_count(fired, updates) == 0,
        fire_count(fired, updates) == 1 ==> fired_after(fired, updates),
        fire_count(fired, updates) == 0 ==> fired_after(fired, updates) == fired,
    decreases updates.len(),
{
    if updates.len() > 0 {
        fires_at_most_once(fired, updates.drop_last());
    }
}

} // verus!
