//! The market-data side: the latest best-ask price of the subscribed pair,
//! throttled display of it, and evaluation of the order trigger on every
//! valid update.

use crate::decimal::Decimal;
use crate::decimal::parsed_units;
use crate::message::{field_text, field_view, json_accepts, json_field, json_field_of, json_valid, Field};
use crate::trigger::{decide, OrderTrigger, TriggerDecision};
use vstd::prelude::*;
use vstd::string::StringSliceAdditionalSpecFns;

verus! {

/// A displayed price is shown again once it moves by more than this many
/// units (0.001).
pub const DISPLAY_EPSILON: u64 = 100_000;

/// A displayed price is shown again once this many milliseconds have passed.
pub const DISPLAY_WINDOW_MS: u64 = 5000;

/// The latest valid best-ask of the subscribed pair.
pub struct PriceSample {
    /// The best ask, as the exchange wrote it and as read.
    pub ask: Decimal,
    pub observed_at: u64,
}

pub open spec fn abs_diff(a: int, b: int) -> int {
    if a >= b {
        a - b
    } else {
        b - a
    }
}

/// Whether a price update at `now` is shown, given the last shown price and
/// when it was shown.
pub open spec fn should_display(last: Option<(u64, u64)>, price: u64, now: u64) -> bool {
    match last {
        None => true,
        Some((p, t)) => abs_diff(price as int, p as int) > DISPLAY_EPSILON || now - t > DISPLAY_WINDOW_MS,
    }
}

/// The last shown price after an update.
pub open spec fn shown_after(last: Option<(u64, u64)>, price: u64, now: u64) -> Option<(u64, u64)> {
    if should_display(last, price, now) {
        Some((price, now))
    } else {
        last
    }
}

/// Limits how often price updates are shown.
pub struct DisplayThrottle {
    pub last: Option<(u64, u64)>,
}

impl DisplayThrottle {
    pub fn new() -> (r: Self)
        ensures
            r.last.is_none(),
    {
        DisplayThrottle { last: None }
    }

    /// Whether to show an update of `price` at `now`; records it when shown.
    pub fn observe(&mut self, price: u64, now: u64) -> (r: bool)
        ensures
            r == should_display(old(self).last, price, now),
            final(self).last == shown_after(old(self).last, price, now),
    {
        let show = match self.last {
            None => true,
            Some((p, t)) => {
                let moved = if price >= p {
                    price - p > DISPLAY_EPSILON
                } else {
                    p - price > DISPLAY_EPSILON
                };
                moved || (now > t && now - t > DISPLAY_WINDOW_MS)
            },
        };
        if show {
            self.last = Some((price, now));
        }
        show
    }
}

/// How many updates of a run are shown.
pub open spec fn display_count(last: Option<(u64, u64)>, updates: Seq<(u64, u64)>) -> nat
    decreases updates.len(),
{
    if updates.len() == 0 {
        0
    } else {
        let u = updates[0];
        (if should_display(last, u.0, u.1) { 1nat } else { 0nat })
            + display_count(shown_after(last, u.0, u.1), updates.skip(1))
    }
}

/// Updates within the threshold of the last shown price and within the
/// window after it was shown are not shown.
pub proof fn quiet_after_display(p: u64, t: u64, updates: Seq<(u64, u64)>)
    requires
        forall|i: int| 0 <= i < updates.len() ==>
            abs_diff(#[trigger] updates[i].0 as int, p as int) <= DISPLAY_EPSILON
            && updates[i].1 - t <= DISPLAY_WINDOW_MS,
    ensures
        display_count(Some((p, t)), updates) == 0,
    decreases updates.len(),
{
    if updates.len() > 0 {
        assert(!should_display(Some((p, t)), updates[0].0, updates[0].1));
        assert forall|i: int| 0 <= i < updates.skip(1).len() implies
            abs_diff(#[trigger] updates.skip(1)[i].0 as int, p as int) <= DISPLAY_EPSILON
            && updates.skip(1)[i].1 - t <= DISPLAY_WINDOW_MS by {
            assert(updates.skip(1)[i] == updates[i + 1]);
        }
        quiet_after_display(p, t, updates.skip(1));
    }
}

/// Updates that all lie within the threshold of one another and within one
/// window of time are shown at most once, however many there are.
pub proof fn shown_at_most_once_per_window(last: Option<(u64, u64)>, updates: Seq<(u64, u64)>)
    requires
        forall|i: int, j: int| 0 <= i < updates.len() && 0 <= j < updates.len() ==>
            abs_diff(#[trigger] updates[i].0 as int, #[trigger] updates[j].0 as int) <= DISPLAY_EPSILON
            && updates[i].1 - updates[j].1 <= DISPLAY_WINDOW_MS,
    ensures
        display_count(last, updates) <= 1,
    decreases updates.len(),
{
    if updates.len() > 0 {
        let u = updates[0];
        let rest = updates.skip(1);
        if should_display(last, u.0, u.1) {
            assert forall|i: int| 0 <= i < rest.len() implies
                abs_diff(#[trigger] rest[i].0 as int, u.0 as int) <= DISPLAY_EPSILON
                && rest[i].1 - u.1 <= DISPLAY_WINDOW_MS by {
                assert(rest[i] == updates[i + 1]);
            }
            quiet_after_display(u.0, u.1, rest);
        } else {
            assert forall|i: int, j: int| 0 <= i < rest.len() && 0 <= j < rest.len() implies
                abs_diff(#[trigger] rest[i].0 as int, #[trigger] rest[j].0 as int) <= DISPLAY_EPSILON
                && rest[i].1 - rest[j].1 <= DISPLAY_WINDOW_MS by {
                assert(rest[i] == updates[i + 1] && rest[j] == updates[j + 1]);
            }
            shown_at_most_once_per_window(last, rest);
        }
    }
}

/// The fields of a book-ticker frame.
pub struct TickerFrame {
    pub channel: Field,
    pub event: Field,
    /// `result.s`, the pair.
    pub symbol: Field,
    /// `result.a`, the best ask.
    pub ask: Field,
}

/// Reads the fields of a market-data frame; `None` when it is not JSON.
pub fn read_ticker(text: &str) -> (r: Option<TickerFrame>)
    ensures
        r.is_some() == json_accepts(text@),
        r matches Some(f) ==> {
            &&& field_view(f.channel) == json_field_of(text@, "/channel"@)
            &&& field_view(f.event) == json_field_of(text@, "/event"@)
            &&& field_view(f.symbol) == json_field_of(text@, "/result/s"@)
            &&& field_view(f.ask) == json_field_of(text@, "/result/a"@)
        },
{
    if !json_valid(text) {
        return None;
    }
    Some(TickerFrame {
        channel: json_field(text, "/channel"),
        event: json_field(text, "/event"),
        symbol: json_field(text, "/result/s"),
        ask: json_field(text, "/result/a"),
    })
}

/// The price that a frame carries for `pair`: a book-ticker update of that
/// pair whose best ask reads as a decimal.
pub open spec fn ticker_price(f: TickerFrame, pair: Seq<char>) -> Option<(Seq<char>, u64)> {
    if field_text(f.channel) == Some("spot.book_ticker"@) && field_text(f.event) == Some("update"@)
        && field_text(f.symbol) == Some(pair) {
        match field_text(f.ask) {
            Some(a) => match parsed_units(vstd::utf8::encode_utf8(a)) {
                Some(u) => Some((a, u)),
                None => None,
            },
            None => None,
        }
    } else {
        None
    }
}

fn is_text(f: &Field, expected: &str) -> (r: bool)
    ensures
        r == (field_text(*f) == Some(expected@)),
{
    match f {
        Field::Text(s) => *s == String::from_str(expected),
        _ => false,
    }
}

/// What one market-data frame led to.
pub struct UpdateOutcome {
    /// Whether the frame carried a valid price of the pair.
    pub valid: bool,
    /// Whether the price is to be shown.
    pub display: bool,
    /// The trigger's decision, for a valid price.
    pub decision: Option<TriggerDecision>,
}

/// The market-data state of the process: the pair, its latest price, the
/// display throttle and the one-shot order trigger.
pub struct MarketFeed {
    pub pair: String,
    pub sample: Option<PriceSample>,
    pub throttle: DisplayThrottle,
    pub trigger: OrderTrigger,
}

impl MarketFeed {
    /// A feed of `pair` with no price yet and a trigger that has not fired.
    pub fn new(pair: String) -> (r: Self)
        ensures
            r.pair@ == pair@,
            r.sample.is_none(),
            r.throttle.last.is_none(),
            !r.trigger.fired(),
    {
        MarketFeed { pair, sample: None, throttle: DisplayThrottle::new(), trigger: OrderTrigger::new() }
    }

    /// Handles one market-data frame received at `now`: a valid price of the
    /// pair overwrites the sample, passes the display throttle and is put to
    /// the trigger; anything else changes nothing.
    pub fn on_frame(&mut self, f: &TickerFrame, authenticated: bool, now: u64) -> (r: UpdateOutcome)
        ensures
            final(self).pair == old(self).pair,
            match ticker_price(*f, old(self).pair@) {
                None => {
                    &&& !r.valid && !r.display && r.decision.is_none()
                    &&& final(self).sample == old(self).sample
                    &&& final(self).throttle == old(self).throttle
                    &&& final(self).trigger == old(self).trigger
                },
                Some((text, units)) => {
                    &&& r.valid
                    &&& final(self).sample matches Some(s) && s.ask.wf() && s.ask.text_view() == text && s.ask.units_view() == units && s.observed_at == now
                    &&& r.display == should_display(old(self).throttle.last, units, now)
                    &&& final(self).throttle.last == shown_after(old(self).throttle.last, units, now)
                    &&& r.decision == Some(decide(old(self).trigger.fired(), units as nat, authenticated))
                    &&& final(self).trigger.fired() == (old(self).trigger.fired() || r.decision == Some(TriggerDecision::Fire))
                },
            },
    {
        let none = UpdateOutcome { valid: false, display: false, decision: None };
        if !is_text(&f.channel, "spot.book_ticker") || !is_text(&f.event, "update") {
            return none;
        }
        let pair_ok = match &f.symbol {
            Field::Text(s) => *s == self.pair,
            _ => false,
        };
        if !pair_ok {
            return none;
        }
        let text = match &f.ask {
            Field::Text(s) => s,
            _ => return none,
        };
        let ask = match Decimal::parse(text.as_str()) {
            Some(d) => d,
            None => return none,
        };
        let units = ask.units();
        self.sample = Some(PriceSample { ask, observed_at: now });
        let display = self.throttle.observe(units, now);
        let decision = self.trigger.evaluate(units, authenticated);
        UpdateOutcome { valid: true, display, decision: Some(decision) }
    }
}

} // verus!
