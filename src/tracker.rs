//! Correlation of outbound requests with their inbound acknowledgments, and
//! the latency of each acknowledgment.

use vstd::prelude::*;

verus! {

/// What is known of one outstanding request: when it was sent, and the
/// latency of each acknowledgment received so far, in order of arrival.
pub struct PendingView {
    pub sent_at: nat,
    pub latencies: Seq<int>,
}

/// One outstanding request.
pub struct PendingRequest {
    pub request_id: String,
    pub sent_at: u64,
    pub latencies: Vec<i128>,
}

impl PendingRequest {
    pub open spec fn model(&self) -> PendingView {
        PendingView { sent_at: self.sent_at as nat, latencies: self.latencies@.map_values(|l: i128| l as int) }
    }
}

/// The table of outstanding requests, keyed by request identifier.
pub struct RequestTracker {
    pending: Vec<PendingRequest>,
}

pub open spec fn ids_unique(s: Seq<PendingRequest>) -> bool {
    forall|i: int, j: int|
        0 <= i < s.len() && 0 <= j < s.len() && i != j ==> s[i].request_id@ != s[j].request_id@
}

/// Every recorded latency is a difference of two 64-bit timestamps.
pub open spec fn entry_bounded(e: PendingRequest) -> bool {
    forall|j: int| 0 <= j < e.latencies@.len() ==> -0x1_0000_0000_0000_0000 < #[trigger] e.latencies@[j] < 0x1_0000_0000_0000_0000
}

pub open spec fn all_bounded(s: Seq<PendingRequest>) -> bool {
    forall|i: int| 0 <= i < s.len() ==> entry_bounded(#[trigger] s[i])
}

pub open spec fn has_id(s: Seq<PendingRequest>, k: Seq<char>) -> bool {
    exists|i: int| 0 <= i < s.len() && s[i].request_id@ == k
}

pub open spec fn table_of(s: Seq<PendingRequest>) -> Map<Seq<char>, PendingView> {
    Map::new(
        |k: Seq<char>| has_id(s, k),
        |k: Seq<char>| s[choose|i: int| 0 <= i < s.len() && s[i].request_id@ == k].model(),
    )
}

proof fn lemma_table_at(s: Seq<PendingRequest>, i: int)
    requires
        ids_unique(s),
        0 <= i < s.len(),
    ensures
        table_of(s).contains_key(s[i].request_id@),
        table_of(s)[s[i].request_id@] == s[i].model(),
{
    let k = s[i].request_id@;
    assert(has_id(s, k));
    let j = choose|j: int| 0 <= j < s.len() && s[j].request_id@ == k;
    assert(j == i);
}

proof fn lemma_table_remove(s: Seq<PendingRequest>, i: int)
    requires
        ids_unique(s),
        0 <= i < s.len(),
    ensures
        ids_unique(s.remove(i)),
        all_bounded(s) ==> all_bounded(s.remove(i)),
        table_of(s.remove(i)) == table_of(s).remove(s[i].request_id@),
{
    let t = s.remove(i);
    let k0 = s[i].request_id@;
    assert forall|a: int, b: int| 0 <= a < t.len() && 0 <= b < t.len() && a != b implies t[a].request_id@ != t[b].request_id@ by {
        let a1 = if a < i { a } else { a + 1 };
        let b1 = if b < i { b } else { b + 1 };
        assert(t[a] == s[a1] && t[b] == s[b1]);
    }
    assert forall|k: Seq<char>| has_id(t, k) <==> (has_id(s, k) && k != k0) by {
        if has_id(t, k) {
            let a = choose|a: int| 0 <= a < t.len() && t[a].request_id@ == k;
            let a1 = if a < i { a } else { a + 1 };
            assert(t[a] == s[a1]);
        }
        if has_id(s, k) && k != k0 {
            let a = choose|a: int| 0 <= a < s.len() && s[a].request_id@ == k;
            let a1 = if a < i { a } else { a - 1 };
            assert(t[a1] == s[a]);
        }
    }
    assert forall|k: Seq<char>| #[trigger] table_of(t).contains_key(k) implies table_of(t)[k] == table_of(s)[k] by {
        let a = choose|a: int| 0 <= a < t.len() && t[a].request_id@ == k;
        let a1 = if a < i { a } else { a + 1 };
        assert(t[a] == s[a1]);
        lemma_table_at(t, a);
        lemma_table_at(s, a1);
    }
    if all_bounded(s) {
        assert forall|a: int| 0 <= a < t.len() implies entry_bounded(#[trigger] t[a]) by {
            let a1 = if a < i { a } else { a + 1 };
            assert(t[a] == s[a1]);
        }
    }
    assert(table_of(t) =~= table_of(s).remove(k0));
}

proof fn lemma_table_push(s: Seq<PendingRequest>, e: PendingRequest)
    requires
        ids_unique(s),
        !has_id(s, e.request_id@),
    ensures
        ids_unique(s.push(e)),
        all_bounded(s) && entry_bounded(e) ==> all_bounded(s.push(e)),
        table_of(s.push(e)) == table_of(s).insert(e.request_id@, e.model()),
{
    let t = s.push(e);
    assert forall|a: int, b: int| 0 <= a < t.len() && 0 <= b < t.len() && a != b implies t[a].request_id@ != t[b].request_id@ by {
        if a < s.len() && b < s.len() {
            assert(t[a] == s[a] && t[b] == s[b]);
        } else if a < s.len() {
            assert(t[a] == s[a]);
        } else if b < s.len() {
            assert(t[b] == s[b]);
        }
    }
    assert forall|k: Seq<char>| has_id(t, k) <==> (has_id(s, k) || k == e.request_id@) by {
        if has_id(t, k) {
            let a = choose|a: int| 0 <= a < t.len() && t[a].request_id@ == k;
            if a < s.len() {
                assert(t[a] == s[a]);
            }
        }
        if has_id(s, k) {
            let a = choose|a: int| 0 <= a < s.len() && s[a].request_id@ == k;
            assert(t[a] == s[a]);
        }
        if k == e.request_id@ {
            assert(t[s.len() as int] == e);
        }
    }
    assert forall|k: Seq<char>| #[trigger] table_of(t).contains_key(k) implies table_of(t)[k] == table_of(s).insert(e.request_id@, e.model())[k] by {
        let a = choose|a: int| 0 <= a < t.len() && t[a].request_id@ == k;
        lemma_table_at(t, a);
        if a < s.len() {
            assert(t[a] == s[a]);
            lemma_table_at(s, a);
        }
    }
    if all_bounded(s) && entry_bounded(e) {
        assert forall|a: int| 0 <= a < t.len() implies entry_bounded(#[trigger] t[a]) by {
            if a < s.len() {
                assert(t[a] == s[a]);
            }
        }
    }
    assert(table_of(t) =~= table_of(s).insert(e.request_id@, e.model()));
}

impl View for RequestTracker {
    type V = Map<Seq<char>, PendingView>;

    /// The outstanding requests, by identifier.
    closed spec fn view(&self) -> Map<Seq<char>, PendingView> {
        table_of(self.pending@)
    }
}

impl RequestTracker {
    pub closed spec fn wf(&self) -> bool {
        ids_unique(self.pending@) && all_bounded(self.pending@)
    }

    /// An empty table.
    pub fn new() -> (r: Self)
        ensures
            r.wf(),
            r@ == Map::<Seq<char>, PendingView>::empty(),
    {
        let r = RequestTracker { pending: Vec::new() };
        assert(r@ =~= Map::<Seq<char>, PendingView>::empty());
        r
    }

    fn position(&self, request_id: &String) -> (r: Option<usize>)
        requires
            self.wf(),
        ensures
            match r {
                Some(i) => i < self.pending@.len() && self.pending@[i as int].request_id@ == request_id@,
                None => !has_id(self.pending@, request_id@),
            },
    {
        let mut i: usize = 0;
        while i < self.pending.len()
            invariant
                i <= self.pending@.len(),
                forall|j: int| 0 <= j < i ==> self.pending@[j].request_id@ != request_id@,
            decreases self.pending@.len() - i,
        {
            if self.pending[i].request_id == *request_id {
                return Some(i);
            }
            i = i + 1;
        }
        None
    }

    /// Whether a request with this identifier is outstanding.
    pub fn is_pending(&self, request_id: &String) -> (r: bool)
        requires
            self.wf(),
        ensures
            r == self@.contains_key(request_id@),
    {
        self.position(request_id).is_some()
    }

    /// Starts tracking a request sent at `now`, with no acknowledgment yet.
    /// An identifier is never reused while its request is outstanding.
    pub fn begin(&mut self, request_id: String, now: u64)
        requires
            old(self).wf(),
            !old(self)@.contains_key(request_id@),
        ensures
            final(self).wf(),
            final(self)@ == old(self)@.insert(request_id@, PendingView { sent_at: now as nat, latencies: Seq::empty() }),
    {
        let ghost id_view = request_id@;
        let e = PendingRequest { request_id, sent_at: now, latencies: Vec::new() };
        assert(entry_bounded(e));
        assert(!has_id(self.pending@, id_view)) by {
            if has_id(self.pending@, id_view) {
                assert(self@.contains_key(id_view));
            }
        }
        proof { lemma_table_push(self.pending@, e); }
        self.pending.push(e);
        assert(e.model().latencies =~= Seq::<int>::empty());
        assert(self@ =~= old(self)@.insert(id_view, PendingView { sent_at: now as nat, latencies: Seq::empty() }));
    }

    /// Records an acknowledgment of `request_id` received at `received_at`
    /// and returns its latency; returns `None` and changes nothing when the
    /// identifier is not outstanding.
    pub fn observe(&mut self, request_id: &String, received_at: u64) -> (r: Option<i128>)
        requires
            old(self).wf(),
        ensures
            final(self).wf(),
            r == observed_latency(old(self)@, request_id@, received_at as nat),
            final(self)@ == after_observe(old(self)@, request_id@, received_at as nat),
    {
        match self.position(request_id) {
            None => {
                assert(!self@.contains_key(request_id@));
                None
            },
            Some(i) => {
                proof { lemma_table_at(self.pending@, i as int); lemma_table_remove(self.pending@, i as int); }
                let mut e = self.pending.remove(i);
                let latency: i128 = received_at as i128 - e.sent_at as i128;
                let ghost before = e.model();
                let ghost lats0 = e.latencies@;
                assert(entry_bounded(e)) by {
                    assert(old(self).pending@[i as int] == e);
                }
                e.latencies.push(latency);
                assert(entry_bounded(e)) by {
                    assert forall|j: int| 0 <= j < e.latencies@.len() implies -0x1_0000_0000_0000_0000 < #[trigger] e.latencies@[j] < 0x1_0000_0000_0000_0000 by {
                        if j < lats0.len() {
                            assert(e.latencies@[j] == lats0[j]);
                        }
                    }
                }
                assert(e.model().latencies =~= before.latencies.push(latency as int));
                assert(!has_id(self.pending@, e.request_id@)) by {
                    assert(!self@.contains_key(e.request_id@));
                }
                proof { lemma_table_push(self.pending@, e); }
                self.pending.push(e);
                assert(self@ =~= after_observe(old(self)@, request_id@, received_at as nat));
                Some(latency)
            },
        }
    }

    /// Removes the entry of `request_id`, if any.
    pub fn retire(&mut self, request_id: &String)
        requires
            old(self).wf(),
        ensures
            final(self).wf(),
            final(self)@ == old(self)@.remove(request_id@),
    {
        match self.position(request_id) {
            None => {
                assert(old(self)@.remove(request_id@) =~= old(self)@);
            },
            Some(i) => {
                proof { lemma_table_remove(self.pending@, i as int); }
                let _ = self.pending.remove(i);
            },
        }
    }

    /// The latencies recorded so far for `request_id`, if it is outstanding.
    pub fn latencies(&self, request_id: &String) -> (r: Option<Vec<i128>>)
        requires
            self.wf(),
        ensures
            match r {
                Some(v) => self@.contains_key(request_id@)
                    && v@.map_values(|l: i128| l as int) == self@[request_id@].latencies,
                None => !self@.contains_key(request_id@),
            },
    {
        match self.position(request_id) {
            None => None,
            Some(i) => {
                proof { lemma_table_at(self.pending@, i as int); }
                Some(self.pending[i].latencies.clone())
            },
        }
    }
}

/// How the exchange classified an order acknowledgment.
#[derive(Clone, Copy, Debug, PartialEq, Eq, Structural)]
pub enum AckStatus {
    /// Definitive success (status `"201"`).
    Accepted,
    /// Definitive client-side rejection (status `"400"`).
    Rejected,
    /// Any other status: an intermediate acknowledgment.
    Other,
}

/// The classification of an order status code.
pub open spec fn status_kind(status: Seq<char>) -> AckStatus {
    if status == "201"@ {
        AckStatus::Accepted
    } else if status == "400"@ {
        AckStatus::Rejected
    } else {
        AckStatus::Other
    }
}

/// Classifies the status code of an order acknowledgment.
pub fn classify_status(status: &String) -> (r: AckStatus)
    ensures
        r == status_kind(status@),
{
    if *status == String::from_str("201") {
        AckStatus::Accepted
    } else if *status == String::from_str("400") {
        AckStatus::Rejected
    } else {
        AckStatus::Other
    }
}

/// A request is done after its second acknowledgment, or after one that is
/// definitive.
pub open spec fn retires(ack_count: nat, status: AckStatus) -> bool {
    ack_count >= 2 || status != AckStatus::Other
}

/// Latencies of a completed request, in order of arrival, and the time
/// between its first two acknowledgments when it had two.
pub struct LatencySummary {
    pub latencies: Vec<i128>,
    pub delta: Option<i128>,
}

/// What one acknowledgment of a tracked request yields.
pub struct AckReport {
    /// Position of this acknowledgment among those of the request, from one.
    pub ack_index: usize,
    pub latency: i128,
    pub status: AckStatus,
    /// Present when this acknowledgment completed the request.
    pub summary: Option<LatencySummary>,
}

pub open spec fn opt_int(o: Option<i128>) -> Option<int> {
    match o {
        Some(d) => Some(d as int),
        None => None,
    }
}

/// The time between the first two acknowledgments, when there were two.
pub open spec fn pair_delta(lats: Seq<int>) -> Option<int> {
    if lats.len() >= 2 {
        Some(lats[1] - lats[0])
    } else {
        None
    }
}

/// The effect of an acknowledgment of `id` at `t` with `status`: nothing
/// for an identifier that is not outstanding; else a report of its index and
/// latency, and the entry updated, or retired with a summary when this
/// acknowledgment completes it.
pub open spec fn acknowledged(
    m: Map<Seq<char>, PendingView>,
    id: Seq<char>,
    t: nat,
    status: AckStatus,
    r: Option<AckReport>,
    m2: Map<Seq<char>, PendingView>,
) -> bool {
    if !m.contains_key(id) {
        r.is_none() && m2 == m
    } else {
        let m1 = after_observe(m, id, t);
        let lats = m1[id].latencies;
        &&& r.is_some()
        &&& r.unwrap().ack_index == lats.len()
        &&& r.unwrap().latency == t - m[id].sent_at
        &&& r.unwrap().status == status
        &&& if retires(lats.len(), status) {
            &&& r.unwrap().summary.is_some()
            &&& r.unwrap().summary.unwrap().latencies@.map_values(|l: i128| l as int) == lats
            &&& opt_int(r.unwrap().summary.unwrap().delta) == pair_delta(lats)
            &&& m2 == m1.remove(id)
        } else {
            &&& r.unwrap().summary.is_none()
            &&& m2 == m1
        }
    }
}

impl RequestTracker {
    /// Records an acknowledgment of `request_id` at `received_at` with
    /// `status`, and retires the request when that completes it. Does nothing
    /// and returns `None` for an identifier that is not outstanding.
    pub fn acknowledge(&mut self, request_id: &String, received_at: u64, status: AckStatus) -> (r: Option<AckReport>)
        requires
            old(self).wf(),
        ensures
            final(self).wf(),
            acknowledged(old(self)@, request_id@, received_at as nat, status, r, final(self)@),
    {
        let latency = match self.observe(request_id, received_at) {
            None => return None,
            Some(l) => l,
        };
        let lats = match self.latencies(request_id) {
            Some(v) => v,
            None => return None,
        };
        let ghost lv = lats@.map_values(|l: i128| l as int);
        let count = lats.len();
        assert(count == lv.len());
        let summary = if count >= 2 || status != AckStatus::Other {
            let delta = if count >= 2 {
                proof { self.lemma_bounded(request_id@); }
                assert(lv[0] == lats@[0] as int && lv[1] == lats@[1] as int);
                Some(lats[1] - lats[0])
            } else {
                None
            };
            self.retire(request_id);
            Some(LatencySummary { latencies: lats, delta })
        } else {
            None
        };
        Some(AckReport { ack_index: count, latency, status, summary })
    }

    proof fn lemma_bounded(&self, id: Seq<char>)
        requires
            self.wf(),
            self@.contains_key(id),
        ensures
            forall|j: int| 0 <= j < self@[id].latencies.len() ==>
                -0x1_0000_0000_0000_0000 < #[trigger] self@[id].latencies[j] < 0x1_0000_0000_0000_0000,
    {
        let i = choose|i: int| 0 <= i < self.pending@.len() && self.pending@[i].request_id@ == id;
        lemma_table_at(self.pending@, i);
        assert(entry_bounded(self.pending@[i]));
    }
}

/// The latency that an acknowledgment at `t` of `id` has, if `id` is outstanding.
pub open spec fn observed_latency(m: Map<Seq<char>, PendingView>, id: Seq<char>, t: nat) -> Option<i128> {
    if m.contains_key(id) {
        Some((t - m[id].sent_at) as i128)
    } else {
        None
    }
}

/// The table after an acknowledgment at `t` of `id`.
pub open spec fn after_observe(m: Map<Seq<char>, PendingView>, id: Seq<char>, t: nat) -> Map<Seq<char>, PendingView> {
    if m.contains_key(id) {
        m.insert(id, PendingView { sent_at: m[id].sent_at, latencies: m[id].latencies.push(t - m[id].sent_at) })
    } else {
        m
    }
}

} // verus!

verus! {

/// A request begun at `t0` and acknowledged at `t1` and then at `t2` has the
/// latencies `t1 - t0` and `t2 - t0`, and `t2 - t1` between its two
/// acknowledgments.
pub proof fn correlation_law(m: Map<Seq<char>, PendingView>, id: Seq<char>, t0: nat, t1: nat, t2: nat)
    ensures
        ({
            let m0 = m.insert(id, PendingView { sent_at: t0, latencies: Seq::empty() });
            let m1 = after_observe(m0, id, t1);
            let m2 = after_observe(m1, id, t2);
            &&& observed_latency(m0, id, t1) == Some((t1 - t0) as i128)
            &&& observed_latency(m1, id, t2) == Some((t2 - t0) as i128)
            &&& m2[id].latencies == seq![t1 - t0, t2 - t0]
            &&& pair_delta(m2[id].latencies) == Some(t2 - t1)
        }),
{
    let m0 = m.insert(id, PendingView { sent_at: t0, latencies: Seq::empty() });
    let m1 = after_observe(m0, id, t1);
    let m2 = after_observe(m1, id, t2);
    assert(m1[id].latencies =~= seq![t1 - t0]);
    assert(m2[id].latencies =~= seq![t1 - t0, t2 - t0]);
}

/// Once a request is retired, acknowledgments of it yield nothing and leave
/// the table as it is.
pub proof fn retired_stays_retired(m: Map<Seq<char>, PendingView>, id: Seq<char>, t: nat)
    ensures
        observed_latency(m.remove(id), id, t).is_none(),
        after_observe(m.remove(id), id, t) == m.remove(id),
{
}

} // verus!
