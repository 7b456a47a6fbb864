//! The telemetry store: bounded, time-pruned histories of system samples and
//! keyboard events, with sequence numbering and history queries.
//!
//! Publishing to live subscribers is left to the caller: the operations whose
//! result subscribers receive return the value to broadcast.
use crate::clock::TimeSpan;
use crate::input_keys::{
    clone_opt_string, KeyboardEventBatch, KeyboardHistoryResponse, KeyboardInputEvent,
    PendingKeyboardEvent,
};
use crate::protocol::{
    clone_processes, clone_processes_prefix, CollectedTelemetry, HistoryRequest, HistoryResponse,
    NodeMetadata, ProcessSummary, SystemSample,
};
use std::collections::VecDeque;
use vstd::prelude::*;

verus! {

/// The keyboard history holds at least this many events.
pub const MIN_KEYBOARD_HISTORY_CAPACITY: usize = 1_024;

/// A record stamped with the time it was captured.
pub trait Timestamped: Sized {
    spec fn timestamp(&self) -> u64;

    fn captured_at(&self) -> (r: u64)
        ensures
            r == self.timestamp(),
    ;
}

impl Timestamped for SystemSample {
    open spec fn timestamp(&self) -> u64 {
        self.captured_at_ms
    }

    fn captured_at(&self) -> (r: u64) {
        self.captured_at_ms
    }
}

impl Timestamped for KeyboardInputEvent {
    open spec fn timestamp(&self) -> u64 {
        self.captured_at_ms
    }

    fn captured_at(&self) -> (r: u64) {
        self.captured_at_ms
    }
}

/// The last `n` elements of `s` (all of them when there are fewer).
pub open spec fn keep_last<A>(s: Seq<A>, n: nat) -> Seq<A> {
    if s.len() > n {
        s.subrange(s.len() - n, s.len() as int)
    } else {
        s
    }
}

/// The first index at or after `i` whose record is not older than `cutoff`.
pub open spec fn first_at_or_after<A: Timestamped>(s: Seq<A>, cutoff: u64, i: nat) -> nat
    decreases s.len() - i,
{
    if i < s.len() && s[i as int].timestamp() < cutoff {
        first_at_or_after(s, cutoff, i + 1)
    } else {
        i
    }
}

/// The oldest timestamp kept when the newest record was captured at
/// `latest`: `latest` minus the retention in milliseconds (truncated to 64
/// bits), saturating at zero.
pub open spec fn retention_cutoff(latest: u64, retention: TimeSpan) -> u64 {
    latest.saturating_sub(retention.millis() as u64)
}

/// Pruning a history: keep the last `max` records, then drop records from
/// the front while they are older than the retention cutoff of the newest
/// record.
pub open spec fn prune<A: Timestamped>(s: Seq<A>, max: nat, retention: TimeSpan) -> Seq<A> {
    let c = keep_last(s, max);
    if c.len() == 0 {
        c
    } else {
        c.subrange(
            first_at_or_after(c, retention_cutoff(c.last().timestamp(), retention), 0) as int,
            c.len() as int,
        )
    }
}

/// The capacity of the keyboard history for `max_samples` samples:
/// 64 events per sample (saturating), but no fewer than
/// `MIN_KEYBOARD_HISTORY_CAPACITY`.
pub open spec fn keyboard_capacity(max_samples: usize) -> usize {
    let scaled = if max_samples * 64 > usize::MAX {
        usize::MAX
    } else {
        (max_samples * 64) as usize
    };
    if scaled > MIN_KEYBOARD_HISTORY_CAPACITY {
        scaled
    } else {
        MIN_KEYBOARD_HISTORY_CAPACITY
    }
}

/// The earliest capture time a query looking back `lookback_secs` seconds
/// from `now_ms` accepts (with saturating arithmetic); `None` when it looks
/// back without limit.
pub open spec fn lookback_cutoff(lookback_secs: Option<u64>, now_ms: u64) -> Option<u64> {
    match lookback_secs {
        None => None,
        Some(secs) => {
            let ms: u64 = if secs * 1000 > u64::MAX {
                u64::MAX
            } else {
                (secs * 1000) as u64
            };
            Some(now_ms.saturating_sub(ms))
        },
    }
}

/// Records captured at or after `cutoff` (every record when there is none).
pub open spec fn captured_since<A: Timestamped>(cutoff: Option<u64>) -> spec_fn(A) -> bool {
    |a: A|
        match cutoff {
            None => true,
            Some(c) => a.timestamp() >= c,
        }
}

/// Sequence numbers strictly increase along `s`.
pub open spec fn samples_in_sequence(s: Seq<SystemSample>, next: u64) -> bool {
    &&& forall|i: int, j: int| 0 <= i < j < s.len() ==> s[i].sequence < s[j].sequence
    &&& forall|i: int| 0 <= i < s.len() ==> s[i].sequence < next
}

/// Sequence numbers strictly increase along `s`, all below `next`.
pub open spec fn events_in_sequence(s: Seq<KeyboardInputEvent>, next: u64) -> bool {
    &&& forall|i: int, j: int| 0 <= i < j < s.len() ==> s[i].sequence < s[j].sequence
    &&& forall|i: int| 0 <= i < s.len() ==> s[i].sequence < next
}

/// The contents of a telemetry store.
#[verifier::ext_equal]
pub struct StoreModel {
    pub node: NodeMetadata,
    pub retention: TimeSpan,
    pub sample_interval: TimeSpan,
    pub max_samples: usize,
    pub next_sequence: u64,
    pub samples: Seq<SystemSample>,
    pub latest_processes: Seq<ProcessSummary>,
    pub next_keyboard_sequence: u64,
    pub keyboard_events: Seq<KeyboardInputEvent>,
    pub keyboard_dropped_events: u64,
    pub keyboard_max_events: usize,
}

impl StoreModel {
    /// What every store satisfies: durations are normalised, both histories
    /// stay within their capacities, and sequence numbers increase along each
    /// history and stay below the next one to be given out.
    pub open spec fn wf(self) -> bool {
        &&& self.retention.wf()
        &&& self.sample_interval.wf()
        &&& self.samples.len() <= self.max_samples
        &&& self.keyboard_max_events == keyboard_capacity(self.max_samples)
        &&& self.keyboard_events.len() <= self.keyboard_max_events
        &&& self.next_sequence >= 1
        &&& self.next_keyboard_sequence >= 1
        &&& samples_in_sequence(self.samples, self.next_sequence)
        &&& events_in_sequence(self.keyboard_events, self.next_keyboard_sequence)
    }

    /// The store after one collection round with `sample` and `processes`:
    /// the sample gets the next sequence number and joins the pruned
    /// history; the processes replace the latest list.
    pub open spec fn after_insert(self, sample: SystemSample, processes: Seq<ProcessSummary>) -> Self {
        StoreModel {
            next_sequence: (self.next_sequence + 1) as u64,
            samples: prune(
                self.samples.push(SystemSample { sequence: self.next_sequence, ..sample }),
                self.max_samples as nat,
                self.retention,
            ),
            latest_processes: processes,
            ..self
        }
    }

    /// The store after a keyboard batch: the dropped count grows
    /// (saturating); the events, when there are any, get consecutive
    /// sequence numbers and join the pruned history.
    pub open spec fn after_keyboard_batch(
        self,
        events: Seq<PendingKeyboardEvent>,
        dropped: u64,
    ) -> Self {
        let d = self.keyboard_dropped_events.saturating_add(dropped);
        if events.len() == 0 {
            StoreModel { keyboard_dropped_events: d, ..self }
        } else {
            StoreModel {
                keyboard_dropped_events: d,
                next_keyboard_sequence: (self.next_keyboard_sequence + events.len()) as u64,
                keyboard_events: prune(
                    self.keyboard_events + stamp_events(events, self.next_keyboard_sequence),
                    self.keyboard_max_events as nat,
                    self.retention,
                ),
                ..self
            }
        }
    }

    /// The samples a history query at `now_ms` returns.
    pub open spec fn history_samples(self, lookback_secs: Option<u64>, now_ms: u64) -> Seq<
        SystemSample,
    > {
        self.samples.filter(captured_since(lookback_cutoff(lookback_secs, now_ms)))
    }

    /// The processes a history query returns.
    pub open spec fn history_processes(self, request: HistoryRequest) -> Seq<ProcessSummary> {
        if request.include_processes {
            match request.max_processes {
                Some(n) => self.latest_processes.take(
                    if n < self.latest_processes.len() {
                        n as int
                    } else {
                        self.latest_processes.len() as int
                    },
                ),
                None => self.latest_processes,
            }
        } else {
            Seq::empty()
        }
    }

    /// The key events a keyboard history query at `now_ms` returns: those
    /// within the lookback, then only the last `limit` of them.
    pub open spec fn keyboard_history(
        self,
        lookback_secs: Option<u64>,
        limit: Option<usize>,
        now_ms: u64,
    ) -> Seq<KeyboardInputEvent> {
        let within = self.keyboard_events.filter(
            captured_since(lookback_cutoff(lookback_secs, now_ms)),
        );
        match limit {
            Some(n) => keep_last(within, n as nat),
            None => within,
        }
    }
}

/// Pending key events stamped with consecutive sequence numbers from
/// `first`.
pub open spec fn stamp_events(events: Seq<PendingKeyboardEvent>, first: u64) -> Seq<
    KeyboardInputEvent,
> {
    Seq::new(
        events.len(),
        |i: int|
            KeyboardInputEvent {
                sequence: (first + i) as u64,
                captured_at_ms: events[i].captured_at_ms,
                device_ptr: events[i].device_ptr,
                key: events[i].key,
            },
    )
}

/// Counters describing the keyboard history.
#[derive(Clone, Copy, Debug, PartialEq, Eq, Structural)]
pub struct KeyboardStoreStatusSnapshot {
    pub retained_events: usize,
    pub dropped_events: u64,
    pub max_events: usize,
    pub next_sequence: u64,
    pub oldest_event_at_ms: Option<u64>,
    pub newest_event_at_ms: Option<u64>,
    pub live_subscribers: usize,
}

/// The telemetry and keyboard histories of one node.
pub struct TelemetryStore {
    node: NodeMetadata,
    retention: TimeSpan,
    sample_interval: TimeSpan,
    max_samples: usize,
    next_sequence: u64,
    samples: VecDeque<SystemSample>,
    latest_processes: Vec<ProcessSummary>,
    next_keyboard_sequence: u64,
    keyboard_events: VecDeque<KeyboardInputEvent>,
    keyboard_dropped_events: u64,
    keyboard_max_events: usize,
}

impl View for TelemetryStore {
    type V = StoreModel;

    closed spec fn view(&self) -> StoreModel {
        StoreModel {
            node: self.node,
            retention: self.retention,
            sample_interval: self.sample_interval,
            max_samples: self.max_samples,
            next_sequence: self.next_sequence,
            samples: self.samples@,
            latest_processes: self.latest_processes@,
            next_keyboard_sequence: self.next_keyboard_sequence,
            keyboard_events: self.keyboard_events@,
            keyboard_dropped_events: self.keyboard_dropped_events,
            keyboard_max_events: self.keyboard_max_events,
        }
    }
}

/// `first_at_or_after` stays within the sequence and never goes backwards.
proof fn lemma_first_at_or_after_bounds<A: Timestamped>(s: Seq<A>, cutoff: u64, i: nat)
    requires
        i <= s.len(),
    ensures
        i <= first_at_or_after(s, cutoff, i) <= s.len(),
    decreases s.len() - i,
{
    if i < s.len() && s[i as int].timestamp() < cutoff {
        lemma_first_at_or_after_bounds(s, cutoff, i + 1);
    }
}

/// Pruning keeps a suffix of the history, no longer than `max`.
pub proof fn lemma_prune_is_suffix<A: Timestamped>(s: Seq<A>, max: nat, retention: TimeSpan)
    ensures
        prune(s, max, retention).len() <= max,
        prune(s, max, retention).len() <= s.len(),
        prune(s, max, retention) == s.subrange(
            s.len() - prune(s, max, retention).len(),
            s.len() as int,
        ),
{
    let c = keep_last(s, max);
    if c.len() > 0 {
        lemma_first_at_or_after_bounds(c, retention_cutoff(c.last().timestamp(), retention), 0);
    }
    assert(prune(s, max, retention) =~= s.subrange(
        s.len() - prune(s, max, retention).len(),
        s.len() as int,
    ));
}

/// `prune` on a deque.
fn prune_deque<A: Timestamped>(q: &mut VecDeque<A>, max: usize, retention: TimeSpan)
    requires
        retention.wf(),
    ensures
        final(q)@ == prune(old(q)@, max as nat, retention),
{
    let ghost initial = q@;
    while q.len() > max
        invariant
            keep_last(q@, max as nat) == keep_last(initial, max as nat),
        decreases q.len(),
    {
        let ghost before = q@;
        q.pop_front();
        assert(keep_last(q@, max as nat) =~= keep_last(before, max as nat));
    }
    let ghost c = q@;
    assert(c == keep_last(initial, max as nat));
    if q.len() > 0 {
        let latest = q[q.len() - 1].captured_at();
        let cutoff = latest.saturating_sub(retention.as_millis() as u64);
        assert(cutoff == retention_cutoff(c.last().timestamp(), retention));
        let ghost mut k: nat = 0;
        while q.len() > 0 && q[0].captured_at() < cutoff
            invariant
                k <= c.len(),
                q@ == c.subrange(k as int, c.len() as int),
                first_at_or_after(c, cutoff, 0) == first_at_or_after(c, cutoff, k),
            decreases q.len(),
        {
            q.pop_front();
            proof {
                k = k + 1;
                assert(q@ =~= c.subrange(k as int, c.len() as int));
            }
        }
        assert(first_at_or_after(c, cutoff, k) == k);
    }
}

/// `x * y`, saturating at the largest `usize`.
fn saturating_mul_usize(x: usize, y: usize) -> (r: usize)
    ensures
        r == (if x * y > usize::MAX {
            usize::MAX
        } else {
            (x * y) as usize
        }),
{
    match x.checked_mul(y) {
        Some(v) => v,
        None => usize::MAX,
    }
}

/// `x * y`, saturating at the largest `u64`.
fn saturating_mul_u64(x: u64, y: u64) -> (r: u64)
    ensures
        r == (if x * y > u64::MAX {
            u64::MAX
        } else {
            (x * y) as u64
        }),
{
    match x.checked_mul(y) {
        Some(v) => v,
        None => u64::MAX,
    }
}

/// The earliest capture time accepted by a query (`lookback_cutoff`).
fn query_cutoff(lookback_secs: Option<u64>, now_ms: u64) -> (r: Option<u64>)
    ensures
        r == lookback_cutoff(lookback_secs, now_ms),
{
    match lookback_secs {
        None => None,
        Some(secs) => Some(now_ms.saturating_sub(saturating_mul_u64(secs, 1000))),
    }
}

impl TelemetryStore {
    /// The store satisfies its invariant.
    pub open spec fn wf(&self) -> bool {
        self@.wf()
    }

    /// An empty store keeping at most `max_samples` samples (and
    /// `keyboard_capacity(max_samples)` key events) for `retention`.
    pub fn new(node: NodeMetadata, retention: TimeSpan, sample_interval: TimeSpan, max_samples: usize) -> (r: Self)
        requires
            retention.wf(),
            sample_interval.wf(),
        ensures
            r.wf(),
            r@ == (StoreModel {
                node,
                retention,
                sample_interval,
                max_samples,
                next_sequence: 1,
                samples: Seq::empty(),
                latest_processes: Seq::empty(),
                next_keyboard_sequence: 1,
                keyboard_events: Seq::empty(),
                keyboard_dropped_events: 0,
                keyboard_max_events: keyboard_capacity(max_samples),
            }),
    {
        let scaled = saturating_mul_usize(max_samples, 64);
        let keyboard_max_events = if scaled > MIN_KEYBOARD_HISTORY_CAPACITY {
            scaled
        } else {
            MIN_KEYBOARD_HISTORY_CAPACITY
        };
        let r = TelemetryStore {
            node,
            retention,
            sample_interval,
            max_samples,
            next_sequence: 1,
            samples: VecDeque::new(),
            latest_processes: Vec::new(),
            next_keyboard_sequence: 1,
            keyboard_events: VecDeque::new(),
            keyboard_dropped_events: 0,
            keyboard_max_events,
        };
        assert(r@ =~= (StoreModel {
            node,
            retention,
            sample_interval,
            max_samples,
            next_sequence: 1,
            samples: Seq::empty(),
            latest_processes: Seq::empty(),
            next_keyboard_sequence: 1,
            keyboard_events: Seq::empty(),
            keyboard_dropped_events: 0,
            keyboard_max_events: keyboard_capacity(max_samples),
        }));
        r
    }

    /// Stores one collection round: the sample gets the next sequence
    /// number, the history is pruned and the process list replaced. Returns
    /// the round as stamped, for live subscribers.
    pub fn insert(&mut self, telemetry: CollectedTelemetry) -> (published: CollectedTelemetry)
        requires
            old(self).wf(),
            old(self)@.next_sequence < u64::MAX,
        ensures
            final(self).wf(),
            final(self)@ == old(self)@.after_insert(telemetry.sample, telemetry.top_processes@),
            published.sample == (SystemSample {
                sequence: old(self)@.next_sequence,
                ..telemetry.sample
            }),
            published.top_processes@ == telemetry.top_processes@,
    {
        let ghost before = self@;
        let mut telemetry = telemetry;
        telemetry.sample.sequence = self.next_sequence;
        self.next_sequence = self.next_sequence + 1;
        self.latest_processes = clone_processes(&telemetry.top_processes);
        self.samples.push_back(telemetry.sample);
        prune_deque(&mut self.samples, self.max_samples, self.retention);
        proof {
            let pushed = before.samples.push(telemetry.sample);
            lemma_prune_is_suffix(pushed, before.max_samples as nat, before.retention);
            assert(samples_in_sequence(pushed, self.next_sequence));
            let p = prune(pushed, before.max_samples as nat, before.retention);
            assert(forall|i: int|
                0 <= i < p.len() ==> #[trigger] p[i] == pushed[pushed.len() - p.len() + i]);
            assert(self@ =~= before.after_insert(telemetry.sample, telemetry.top_processes@));
        }
        telemetry
    }

    /// Stores a batch of key events, adds `dropped_events` to the dropped
    /// count, and returns the batch to publish: `None` when there are no
    /// events, else the events with their new sequence numbers.
    pub fn insert_keyboard_batch(
        &mut self,
        events: Vec<PendingKeyboardEvent>,
        published_at_ms: u64,
        dropped_events: u64,
    ) -> (r: Option<KeyboardEventBatch>)
        requires
            old(self).wf(),
            old(self)@.next_keyboard_sequence + events.len() <= u64::MAX,
        ensures
            final(self).wf(),
            final(self)@ == old(self)@.after_keyboard_batch(events@, dropped_events),
            match r {
                None => events.len() == 0,
                Some(b) => events.len() > 0 && b.published_at_ms == published_at_ms
                    && b.dropped_events == dropped_events && b.events@ == stamp_events(
                    events@,
                    old(self)@.next_keyboard_sequence,
                ),
            },
    {
        let ghost before = self@;
        self.keyboard_dropped_events = self.keyboard_dropped_events.saturating_add(dropped_events);
        if events.len() == 0 {
            assert(self@ =~= before.after_keyboard_batch(events@, dropped_events));
            return None;
        }
        let ghost first = before.next_keyboard_sequence;
        let mut published: Vec<KeyboardInputEvent> = Vec::new();
        let mut i: usize = 0;
        while i < events.len()
            invariant
                i <= events.len(),
                first + events.len() <= u64::MAX,
                self.next_keyboard_sequence == first + i,
                published@ == stamp_events(events@, first).take(i as int),
                self.keyboard_events@ == before.keyboard_events + stamp_events(events@, first).take(
                    i as int,
                ),
                self.retention == before.retention,
                self.keyboard_max_events == before.keyboard_max_events,
                self.node == before.node,
                self.sample_interval == before.sample_interval,
                self.max_samples == before.max_samples,
                self.next_sequence == before.next_sequence,
                self.samples@ == before.samples,
                self.latest_processes@ == before.latest_processes,
                self.keyboard_dropped_events == before.keyboard_dropped_events.saturating_add(
                    dropped_events,
                ),
            decreases events.len() - i,
        {
            let e = &events[i];
            let stored = KeyboardInputEvent {
                sequence: self.next_keyboard_sequence,
                captured_at_ms: e.captured_at_ms,
                device_ptr: clone_opt_string(&e.device_ptr),
                key: e.key.clone(),
            };
            self.next_keyboard_sequence = self.next_keyboard_sequence + 1;
            self.keyboard_events.push_back(stored.clone());
            published.push(stored);
            proof {
                assert(stamp_events(events@, first).take(i + 1) =~= stamp_events(
                    events@,
                    first,
                ).take(i as int).push(stored));
            }
            i += 1;
        }
        assert(stamp_events(events@, first).take(events.len() as int) =~= stamp_events(
            events@,
            first,
        ));
        prune_deque(&mut self.keyboard_events, self.keyboard_max_events, self.retention);
        proof {
            let joined = before.keyboard_events + stamp_events(events@, first);
            lemma_prune_is_suffix(joined, before.keyboard_max_events as nat, before.retention);
            assert(events_in_sequence(joined, self.next_keyboard_sequence)) by {
                assert forall|a: int, b: int| 0 <= a < b < joined.len() implies joined[a].sequence
                    < joined[b].sequence by {
                    if a >= before.keyboard_events.len() {
                    } else if b >= before.keyboard_events.len() {
                        assert(joined[a].sequence < first);
                    }
                }
            }
            let p = prune(joined, before.keyboard_max_events as nat, before.retention);
            assert(forall|k: int|
                0 <= k < p.len() ==> #[trigger] p[k] == joined[joined.len() - p.len() + k]);
            assert(self@ =~= before.after_keyboard_batch(events@, dropped_events));
        }
        Some(
            KeyboardEventBatch { published_at_ms, dropped_events, events: published },
        )
    }

    /// The sequence number the next sample gets.
    pub fn next_sequence(&self) -> (r: u64)
        ensures
            r == self@.next_sequence,
    {
        self.next_sequence
    }

    /// The sequence number the next key event gets.
    pub fn next_keyboard_sequence(&self) -> (r: u64)
        ensures
            r == self@.next_keyboard_sequence,
    {
        self.next_keyboard_sequence
    }

    /// The keyboard history within the lookback, limited to the last
    /// `limit` events, generated at `now_ms`.
    pub fn build_keyboard_history_response(
        &self,
        lookback_secs: Option<u64>,
        limit: Option<usize>,
        now_ms: u64,
    ) -> (r: KeyboardHistoryResponse)
        requires
            self.wf(),
        ensures
            r.generated_at_ms == now_ms,
            r.retention_secs == self@.retention.secs,
            r.dropped_events == self@.keyboard_dropped_events,
            r.events@ == self@.keyboard_history(lookback_secs, limit, now_ms),
    {
        let cutoff = query_cutoff(lookback_secs, now_ms);
        let ghost pred = captured_since::<KeyboardInputEvent>(cutoff);
        let mut events: Vec<KeyboardInputEvent> = Vec::new();
        let mut i: usize = 0;
        while i < self.keyboard_events.len()
            invariant
                i <= self.keyboard_events@.len(),
                pred == captured_since::<KeyboardInputEvent>(cutoff),
                events@ == self.keyboard_events@.take(i as int).filter(pred),
            decreases self.keyboard_events@.len() - i,
        {
            let e = &self.keyboard_events[i];
            let keep = match cutoff {
                None => true,
                Some(c) => e.captured_at_ms >= c,
            };
            proof {
                reveal(Seq::filter);
                assert(self.keyboard_events@.take(i + 1).drop_last() =~= self.keyboard_events@.take(
                    i as int,
                ));
                assert(self.keyboard_events@.take(i + 1).last() == *e);
            }
            if keep {
                events.push(e.clone());
            }
            i += 1;
        }
        assert(self.keyboard_events@.take(self.keyboard_events@.len() as int)
            =~= self.keyboard_events@);
        let events = match limit {
            None => events,
            Some(n) => {
                let keep_from = events.len().saturating_sub(n);
                let mut all = events;
                let kept = all.split_off(keep_from);
                assert(kept@ =~= keep_last(
                    self.keyboard_events@.filter(pred),
                    n as nat,
                ));
                kept
            },
        };
        KeyboardHistoryResponse {
            generated_at_ms: now_ms,
            retention_secs: self.retention.as_secs(),
            dropped_events: self.keyboard_dropped_events,
            events,
        }
    }

    /// Counters of the keyboard history; `live_subscribers` is the number of
    /// live keyboard subscribers the caller reports.
    pub fn build_keyboard_status_snapshot(&self, live_subscribers: usize) -> (r:
        KeyboardStoreStatusSnapshot)
        requires
            self.wf(),
        ensures
            r.retained_events == self@.keyboard_events.len(),
            r.dropped_events == self@.keyboard_dropped_events,
            r.max_events == self@.keyboard_max_events,
            r.next_sequence == self@.next_keyboard_sequence,
            r.oldest_event_at_ms == (if self@.keyboard_events.len() == 0 {
                None
            } else {
                Some(self@.keyboard_events[0].captured_at_ms)
            }),
            r.newest_event_at_ms == (if self@.keyboard_events.len() == 0 {
                None
            } else {
                Some(self@.keyboard_events.last().captured_at_ms)
            }),
            r.live_subscribers == live_subscribers,
    {
        let n = self.keyboard_events.len();
        let (oldest, newest) = if n == 0 {
            (None, None)
        } else {
            (
                Some(self.keyboard_events[0].captured_at_ms),
                Some(self.keyboard_events[n - 1].captured_at_ms),
            )
        };
        KeyboardStoreStatusSnapshot {
            retained_events: n,
            dropped_events: self.keyboard_dropped_events,
            max_events: self.keyboard_max_events,
            next_sequence: self.next_keyboard_sequence,
            oldest_event_at_ms: oldest,
            newest_event_at_ms: newest,
            live_subscribers,
        }
    }

    /// The answer to `request` at `now_ms`.
    pub fn build_history_response(&self, request: &HistoryRequest, now_ms: u64) -> (r:
        HistoryResponse)
        requires
            self.wf(),
        ensures
            r.generated_at_ms == now_ms,
            r.retention_secs == self@.retention.secs,
            r.sample_interval_ms == self@.sample_interval.millis() as u64,
            r.node == self@.node,
            r.samples@ == self@.history_samples(request.lookback_secs, now_ms),
            r.top_processes@ == self@.history_processes(*request),
    {
        let cutoff = query_cutoff(request.lookback_secs, now_ms);
        let ghost pred = captured_since::<SystemSample>(cutoff);
        let mut samples: Vec<SystemSample> = Vec::new();
        let mut i: usize = 0;
        while i < self.samples.len()
            invariant
                i <= self.samples@.len(),
                pred == captured_since::<SystemSample>(cutoff),
                samples@ == self.samples@.take(i as int).filter(pred),
            decreases self.samples@.len() - i,
        {
            let s = self.samples[i];
            let keep = match cutoff {
                None => true,
                Some(c) => s.captured_at_ms >= c,
            };
            proof {
                reveal(Seq::filter);
                assert(self.samples@.take(i + 1).drop_last() =~= self.samples@.take(i as int));
                assert(self.samples@.take(i + 1).last() == s);
            }
            if keep {
                samples.push(s);
            }
            i += 1;
        }
        assert(self.samples@.take(self.samples@.len() as int) =~= self.samples@);
        let top_processes = if request.include_processes {
            match request.max_processes {
                Some(n) => clone_processes_prefix(&self.latest_processes, n),
                None => clone_processes(&self.latest_processes),
            }
        } else {
            Vec::new()
        };
        HistoryResponse {
            generated_at_ms: now_ms,
            retention_secs: self.retention.as_secs(),
            sample_interval_ms: self.sample_interval.as_millis() as u64,
            node: self.node.clone(),
            samples,
            top_processes,
        }
    }
}

/// `first_at_or_after` stops at the first record not older than the cutoff.
proof fn lemma_first_at_or_after_stops<A: Timestamped>(s: Seq<A>, cutoff: u64, i: nat, j: nat)
    requires
        i <= j < s.len(),
        s[j as int].timestamp() >= cutoff,
    ensures
        first_at_or_after(s, cutoff, i) <= j,
        s[first_at_or_after(s, cutoff, i) as int].timestamp() >= cutoff,
    decreases s.len() - i,
{
    if s[i as int].timestamp() < cutoff {
        lemma_first_at_or_after_stops(s, cutoff, i + 1, j);
    }
}

/// Pruning never drops the newest record (when there is room for one), and
/// what it keeps starts no earlier than the retention cutoff of the newest
/// record.
pub proof fn law_prune_keeps_newest_within_retention<A: Timestamped>(
    s: Seq<A>,
    max: nat,
    retention: TimeSpan,
)
    requires
        s.len() > 0,
        max >= 1,
    ensures
        prune(s, max, retention).len() > 0,
        prune(s, max, retention).last() == s.last(),
        prune(s, max, retention)[0].timestamp() >= retention_cutoff(s.last().timestamp(), retention),
{
    let c = keep_last(s, max);
    assert(c.last() == s.last());
    let cutoff = retention_cutoff(c.last().timestamp(), retention);
    lemma_first_at_or_after_stops(c, cutoff, 0, (c.len() - 1) as nat);
}

/// A filter keeps the last element of a sequence exactly when the element
/// passes, and then the filtered sequence ends with it.
proof fn lemma_filter_last<A>(s: Seq<A>, pred: spec_fn(A) -> bool)
    requires
        s.len() > 0,
        pred(s.last()),
    ensures
        s.filter(pred).len() > 0,
        s.filter(pred).last() == s.last(),
{
    reveal(Seq::filter);
}

/// What a history read gives back of a write: after a collection round, a
/// store with room for samples answers every history query whose lookback
/// admits the new sample with that sample, stamped with the next sequence
/// number, as its newest entry.
pub proof fn law_history_reads_back_insert(
    m: StoreModel,
    sample: SystemSample,
    processes: Seq<ProcessSummary>,
    lookback_secs: Option<u64>,
    now_ms: u64,
)
    requires
        m.wf(),
        m.max_samples >= 1,
        captured_since::<SystemSample>(lookback_cutoff(lookback_secs, now_ms))(sample),
    ensures
        m.after_insert(sample, processes).history_samples(lookback_secs, now_ms).len() > 0,
        m.after_insert(sample, processes).history_samples(lookback_secs, now_ms).last() == (
        SystemSample { sequence: m.next_sequence, ..sample }),
{
    let stamped = SystemSample { sequence: m.next_sequence, ..sample };
    let pushed = m.samples.push(stamped);
    law_prune_keeps_newest_within_retention(pushed, m.max_samples as nat, m.retention);
    lemma_filter_last(
        prune(pushed, m.max_samples as nat, m.retention),
        captured_since::<SystemSample>(lookback_cutoff(lookback_secs, now_ms)),
    );
}

/// A history query returns only samples within its lookback, in the order
/// they were stored; a process limit is respected.
pub proof fn law_history_within_lookback(m: StoreModel, request: HistoryRequest, now_ms: u64)
    ensures
        forall|i: int|
            0 <= i < m.history_samples(request.lookback_secs, now_ms).len() ==> captured_since::<
                SystemSample,
            >(lookback_cutoff(request.lookback_secs, now_ms))(
                #[trigger] m.history_samples(request.lookback_secs, now_ms)[i],
            ),
        m.history_samples(request.lookback_secs, now_ms).len() <= m.samples.len(),
        request.max_processes matches Some(n) ==> m.history_processes(request).len() <= n,
        !request.include_processes ==> m.history_processes(request).len() == 0,
{
    let pred = captured_since::<SystemSample>(lookback_cutoff(request.lookback_secs, now_ms));
    m.samples.lemma_filter_len(pred);
    assert forall|i: int| 0 <= i < m.samples.filter(pred).len() implies pred(
        #[trigger] m.samples.filter(pred)[i],
    ) by {
        m.samples.lemma_filter_pred(pred, i);
    }
}

/// Key events published in one batch carry consecutive sequence numbers
/// starting at the store's next one, and a keyboard history query without
/// lookback or limit afterwards ends with the batch's last event.
pub proof fn law_keyboard_batch_reads_back(
    m: StoreModel,
    events: Seq<PendingKeyboardEvent>,
    dropped: u64,
    now_ms: u64,
)
    requires
        m.wf(),
        events.len() > 0,
        m.next_keyboard_sequence + events.len() <= u64::MAX,
    ensures
        forall|i: int|
            0 <= i < events.len() ==> #[trigger] stamp_events(events, m.next_keyboard_sequence)[i].sequence
                == m.next_keyboard_sequence + i,
        m.after_keyboard_batch(events, dropped).keyboard_history(None, None, now_ms).last()
            == stamp_events(events, m.next_keyboard_sequence).last(),
        m.after_keyboard_batch(events, dropped).keyboard_dropped_events
            == m.keyboard_dropped_events.saturating_add(dropped),
{
    let joined = m.keyboard_events + stamp_events(events, m.next_keyboard_sequence);
    assert(joined.last() == stamp_events(events, m.next_keyboard_sequence).last());
    law_prune_keeps_newest_within_retention(joined, m.keyboard_max_events as nat, m.retention);
    lemma_filter_last(
        prune(joined, m.keyboard_max_events as nat, m.retention),
        captured_since::<KeyboardInputEvent>(lookback_cutoff(None, now_ms)),
    );
}

/// A keyboard history query returns at most `limit` events, each within the
/// lookback.
pub proof fn law_keyboard_history_bounds(
    m: StoreModel,
    lookback_secs: Option<u64>,
    limit: Option<usize>,
    now_ms: u64,
)
    ensures
        limit matches Some(n) ==> m.keyboard_history(lookback_secs, limit, now_ms).len() <= n,
        forall|i: int|
            0 <= i < m.keyboard_history(lookback_secs, limit, now_ms).len() ==> captured_since::<
                KeyboardInputEvent,
            >(lookback_cutoff(lookback_secs, now_ms))(
                #[trigger] m.keyboard_history(lookback_secs, limit, now_ms)[i],
            ),
{
    let pred = captured_since::<KeyboardInputEvent>(lookback_cutoff(lookback_secs, now_ms));
    let within = m.keyboard_events.filter(pred);
    assert forall|i: int| 0 <= i < within.len() implies pred(#[trigger] within[i]) by {
        m.keyboard_events.lemma_filter_pred(pred, i);
    }
}

/// A collection round replaces the latest process list with exactly its
/// own, whatever the store held before, and a default history query then
/// answers with that list.
pub proof fn law_insert_replaces_processes(
    m: StoreModel,
    sample: SystemSample,
    processes: Seq<ProcessSummary>,
)
    ensures
        m.after_insert(sample, processes).latest_processes == processes,
        m.after_insert(sample, processes).history_processes(
            HistoryRequest { lookback_secs: None, include_processes: true, max_processes: None },
        ) == processes,
{
}

/// A history query answers with no processes when it asks for none; else
/// with the latest list, cut to its first `n` entries when a limit `n` is
/// given, and whole when no limit is given.
pub proof fn law_history_processes_are_latest_prefix(m: StoreModel, request: HistoryRequest)
    ensures
        !request.include_processes ==> m.history_processes(request).len() == 0,
        request.include_processes && request.max_processes is None ==> m.history_processes(request)
            == m.latest_processes,
        request.include_processes && request.max_processes is Some ==> {
            let n = request.max_processes->0;
            let r = m.history_processes(request);
            &&& r.len() == (if n < m.latest_processes.len() {
                n as int
            } else {
                m.latest_processes.len() as int
            })
            &&& forall|i: int| 0 <= i < r.len() ==> r[i] == m.latest_processes[i]
        },
{
}

/// Stamping keeps each pending key event's content: the i-th stamped event
/// has the i-th pending event's capture time, device and key, and sequence
/// number `first + i`.
pub proof fn law_stamping_keeps_event_contents(events: Seq<PendingKeyboardEvent>, first: u64)
    requires
        first + events.len() <= u64::MAX + 1,
    ensures
        stamp_events(events, first).len() == events.len(),
        forall|i: int|
            0 <= i < events.len() ==> {
                let e = #[trigger] stamp_events(events, first)[i];
                &&& e.sequence == first + i
                &&& e.captured_at_ms == events[i].captured_at_ms
                &&& e.device_ptr == events[i].device_ptr
                &&& e.key == events[i].key
            },
{
}

/// After a keyboard batch, a keyboard history query without lookback or
/// limit ends with the batch's last event, carrying that event's capture
/// time, device and key, with the batch's last sequence number.
pub proof fn law_keyboard_batch_keeps_last_event(
    m: StoreModel,
    events: Seq<PendingKeyboardEvent>,
    dropped: u64,
    now_ms: u64,
)
    requires
        m.wf(),
        events.len() > 0,
        m.next_keyboard_sequence + events.len() <= u64::MAX,
    ensures
        ({
            let h = m.after_keyboard_batch(events, dropped).keyboard_history(None, None, now_ms);
            &&& h.len() > 0
            &&& h.last().sequence == m.next_keyboard_sequence + events.len() - 1
            &&& h.last().captured_at_ms == events.last().captured_at_ms
            &&& h.last().device_ptr == events.last().device_ptr
            &&& h.last().key == events.last().key
        }),
{
    law_keyboard_batch_reads_back(m, events, dropped, now_ms);
    law_stamping_keeps_event_contents(events, m.next_keyboard_sequence);
    let s = stamp_events(events, m.next_keyboard_sequence);
    assert(s.last() == s[events.len() - 1]);
    let joined = m.keyboard_events + s;
    law_prune_keeps_newest_within_retention(joined, m.keyboard_max_events as nat, m.retention);
    let p = prune(joined, m.keyboard_max_events as nat, m.retention);
    lemma_filter_last(p, captured_since::<KeyboardInputEvent>(lookback_cutoff(None, now_ms)));
}

} // verus!
