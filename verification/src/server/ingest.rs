//! What arrives from a client: splitting batches by log time and cutting
//! sessions.
use vstd::multiset::Multiset;
use vstd::prelude::*;

use crate::event;
use crate::event::{CombatEvent, EventBatch};

verus! {

/// Maximum EQ log-time span (seconds) allowed per journal entry.
pub const BATCH_SPLIT_SECS: u64 = 60;

/// The window of log time in which an event falls, counted from `min`.
pub open spec fn window_of(e: CombatEvent, min: int) -> int {
    (e.spec_ts() as int - min) / (BATCH_SPLIT_SECS as int)
}

/// The events of window `w`, in the order in which they came.
pub open spec fn window_events(events: Seq<CombatEvent>, min: int, w: int) -> Seq<CombatEvent> {
    events.filter(|e: CombatEvent| window_of(e, min) == w)
}

/// The non-empty ones of the first `n` windows.
pub open spec fn filled_windows(events: Seq<CombatEvent>, min: int, n: nat) -> Seq<
    Seq<CombatEvent>,
>
    decreases n,
{
    if n == 0 {
        Seq::empty()
    } else {
        let before = filled_windows(events, min, (n - 1) as nat);
        let last = window_events(events, min, n - 1);
        if last.len() == 0 {
            before
        } else {
            before.push(last)
        }
    }
}

/// Whether `r` is what `batch` is split into: `batch` itself where it has no
/// events or spans no more than one window; else one sub-batch for each window
/// of log time that holds events, numbered from the batch's own number on.
pub open spec fn is_split(batch: EventBatch, r: Seq<EventBatch>) -> bool {
    if batch.events@.len() == 0 {
        r == seq![batch]
    } else {
        exists|min: int, max: int|
            {
                &&& #[trigger] event::is_min_ts(batch.events@, min)
                &&& #[trigger] event::is_max_ts(batch.events@, max)
                &&& if max - min <= BATCH_SPLIT_SECS {
                    r == seq![batch]
                } else {
                    is_split_at(batch, min, max, r)
                }
            }
    }
}

/// Whether `r` holds one sub-batch for each window of log time, from `min` to
/// `max`, that holds events of `batch`.
pub open spec fn is_split_at(batch: EventBatch, min: int, max: int, r: Seq<EventBatch>) -> bool {
    let w = filled_windows(
        batch.events@,
        min,
        ((max - min) / (BATCH_SPLIT_SECS as int) + 1) as nat,
    );
    &&& r.len() == w.len()
    &&& forall|i: int|
        0 <= i < r.len() ==> {
            &&& (#[trigger] r[i]).events@ == w[i]
            &&& r[i].seq as int == (batch.seq + i) % 0x1_0000_0000
        }
}

/// Split an `EventBatch` that spans more than `BATCH_SPLIT_SECS` of EQ log
/// time into sequential sub-batches, each covering at most that window.
/// Returns the batch unchanged when it already fits.
pub fn split_by_log_time(batch: EventBatch) -> (r: Vec<EventBatch>)
    ensures
        is_split(batch, r@),
{
    if batch.events.len() == 0 {
        let mut one: Vec<EventBatch> = Vec::new();
        one.push(batch);
        return one;
    }
    let (min_ts, max_ts) = event::ts_bounds(&batch.events);
    if max_ts - min_ts <= BATCH_SPLIT_SECS {
        let mut one: Vec<EventBatch> = Vec::new();
        one.push(batch);
        proof {
            assert(event::is_min_ts(batch.events@, min_ts as int));
            assert(event::is_max_ts(batch.events@, max_ts as int));
        }
        return one;
    }
    let ghost events = batch.events@;
    let base_seq: u32 = batch.seq;
    let num_windows: usize = ((max_ts - min_ts) / BATCH_SPLIT_SECS + 1) as usize;
    let mut buckets: Vec<Vec<CombatEvent>> = Vec::new();
    let mut w: usize = 0;
    while w < num_windows
        invariant
            w <= num_windows,
            buckets@.len() == w,
            forall|k: int| 0 <= k < w ==> (#[trigger] buckets@[k])@.len() == 0,
        decreases num_windows - w,
    {
        buckets.push(Vec::new());
        w += 1;
    }
    proof {
        assert forall|k: int| 0 <= k < num_windows implies (#[trigger] buckets@[k])@
            == window_events(events.take(0), min_ts as int, k) by {
            assert(events.take(0) =~= Seq::<CombatEvent>::empty());
            reveal(Seq::filter);
        }
    }
    for event in it: batch.events
        invariant
            it.seq() == events,
            min_ts <= max_ts <= u32::MAX,
            event::is_min_ts(events, min_ts as int),
            event::is_max_ts(events, max_ts as int),
            num_windows == (max_ts - min_ts) / 60 + 1,
            buckets@.len() == num_windows,
            forall|k: int|
                0 <= k < num_windows ==> (#[trigger] buckets@[k])@ == window_events(
                    events.take(it.index() as int),
                    min_ts as int,
                    k,
                ),
    {
        let ghost i = it.index() as int;
        proof {
            assert(event == events[i]);
            assert(events[i].spec_ts() >= min_ts);
            assert(events[i].spec_ts() <= max_ts);
        }
        let slot: usize = ((event.ts() as u64 - min_ts) / BATCH_SPLIT_SECS) as usize;
        let ghost before = buckets@;
        buckets[slot].push(event);
        proof {
            assert(events.take(i + 1).drop_last() =~= events.take(i));
            assert(events.take(i + 1).last() == events[i]);
            assert forall|k: int| 0 <= k < num_windows implies (#[trigger] buckets@[k])@
                == window_events(events.take(i + 1), min_ts as int, k) by {
                reveal(Seq::filter);
                assert(before[k]@ == window_events(events.take(i), min_ts as int, k));
            }
        }
    }
    proof {
        assert(events.take(events.len() as int) =~= events);
    }
    let ghost all = buckets@;
    let mut result: Vec<EventBatch> = Vec::new();
    for bucket in jt: buckets
        invariant
            jt.seq() == all,
            all.len() == num_windows,
            num_windows <= 0x1_0000_0000,
            forall|k: int|
                0 <= k < num_windows ==> (#[trigger] all[k])@ == window_events(
                    events,
                    min_ts as int,
                    k,
                ),
            result@.len() <= jt.index(),
            ({
                let f = filled_windows(events, min_ts as int, jt.index() as nat);
                &&& result@.len() == f.len()
                &&& forall|k: int|
                    0 <= k < f.len() ==> {
                        &&& (#[trigger] result@[k]).events@ == f[k]
                        &&& result@[k].seq as int == (base_seq + k) % 0x1_0000_0000
                    }
            }),
    {
        let ghost n = jt.index() as int;
        proof {
            assert(bucket == all[n]);
        }
        if bucket.len() > 0 {
            let at: u32 = result.len() as u32;
            let seq: u32 = base_seq.wrapping_add(at);
            let ghost before = result@;
            result.push(EventBatch { seq, events: bucket });
            proof {
                assert forall|k: int| 0 <= k < result@.len() implies {
                    &&& (#[trigger] result@[k]).events@ == filled_windows(
                        events,
                        min_ts as int,
                        (n + 1) as nat,
                    )[k]
                    &&& result@[k].seq as int == (base_seq + k) % 0x1_0000_0000
                } by {
                    if k < before.len() {
                        assert(result@[k] == before[k]);
                    }
                }
            }
        }
    }
    proof {
        assert(is_split_at(batch, min_ts as int, max_ts as int, result@));
        assert(event::is_min_ts(events, min_ts as int));
        assert(event::is_max_ts(events, max_ts as int));
    }
    result
}

// ── What splitting keeps ────────────────────────────────────────────────────

/// The events of all batches together.
pub open spec fn gathered(r: Seq<EventBatch>) -> Multiset<CombatEvent>
    decreases r.len(),
{
    if r.len() == 0 {
        Multiset::empty()
    } else {
        gathered(r.drop_last()).add(r.last().events@.to_multiset())
    }
}

/// The events of the first windows together.
spec fn gathered_windows(w: Seq<Seq<CombatEvent>>) -> Multiset<CombatEvent>
    decreases w.len(),
{
    if w.len() == 0 {
        Multiset::empty()
    } else {
        gathered_windows(w.drop_last()).add(w.last().to_multiset())
    }
}

/// What two predicates that exclude each other select together is what they
/// select one by one.
proof fn filter_disjoint(
    s: Seq<CombatEvent>,
    p: spec_fn(CombatEvent) -> bool,
    q: spec_fn(CombatEvent) -> bool,
    both: spec_fn(CombatEvent) -> bool,
)
    requires
        forall|e: CombatEvent| !(#[trigger] p(e) && q(e)),
        forall|e: CombatEvent| #[trigger] both(e) == (p(e) || q(e)),
    ensures
        s.filter(both).to_multiset() == s.filter(p).to_multiset().add(s.filter(q).to_multiset()),
    decreases s.len(),
{
    reveal(Seq::filter);
    broadcast use vstd::seq_lib::group_to_multiset_ensures;

    if s.len() > 0 {
        let t = s.drop_last();
        let e = s.last();
        filter_disjoint(t, p, q, both);
        assert(both(e) == (p(e) || q(e)));
        assert(!(p(e) && q(e)));
        assert(s.filter(both).to_multiset() =~= s.filter(p).to_multiset().add(
            s.filter(q).to_multiset(),
        ));
    } else {
        assert(s.filter(both) =~= Seq::<CombatEvent>::empty());
        assert(s.filter(p) =~= Seq::<CombatEvent>::empty());
        assert(s.filter(q) =~= Seq::<CombatEvent>::empty());
        assert(s.filter(both).to_multiset() =~= s.filter(p).to_multiset().add(
            s.filter(q).to_multiset(),
        ));
    }
}

/// The non-empty ones of the first `n` windows hold exactly the events that
/// fall in those windows.
proof fn windows_gather(events: Seq<CombatEvent>, min: int, n: nat)
    requires
        forall|i: int| 0 <= i < events.len() ==> window_of(#[trigger] events[i], min) >= 0,
    ensures
        gathered_windows(filled_windows(events, min, n)) == events.filter(
            |e: CombatEvent| 0 <= window_of(e, min) < n,
        ).to_multiset(),
    decreases n,
{
    broadcast use vstd::seq_lib::group_to_multiset_ensures;

    let upto = |e: CombatEvent| 0 <= window_of(e, min) < n;
    if n == 0 {
        let got = events.filter(upto);
        if got.len() > 0 {
            events.lemma_filter_pred(upto, 0);
        }
        assert(got =~= Seq::<CombatEvent>::empty());
        assert(gathered_windows(filled_windows(events, min, n)) =~= got.to_multiset());
    } else {
        let m = (n - 1) as nat;
        windows_gather(events, min, m);
        let less = |e: CombatEvent| 0 <= window_of(e, min) < m;
        let here = |e: CombatEvent| window_of(e, min) == n - 1;
        filter_disjoint(events, less, here, upto);
        let last = window_events(events, min, n - 1);
        let before = filled_windows(events, min, m);
        if last.len() == 0 {
            assert(last =~= Seq::<CombatEvent>::empty());
            assert(last.to_multiset() =~= Multiset::<CombatEvent>::empty());
            assert(events.filter(upto).to_multiset() =~= events.filter(less).to_multiset());
        } else {
            assert(before.push(last).drop_last() =~= before);
        }
    }
}

/// Sub-batches hold the events of the windows that they were made of.
proof fn gathered_of_windows(r: Seq<EventBatch>, w: Seq<Seq<CombatEvent>>)
    requires
        r.len() == w.len(),
        forall|i: int| 0 <= i < r.len() ==> (#[trigger] r[i]).events@ == w[i],
    ensures
        gathered(r) == gathered_windows(w),
    decreases r.len(),
{
    if r.len() > 0 {
        gathered_of_windows(r.drop_last(), w.drop_last());
    }
}

/// Splitting loses no event, adds none and repeats none.
pub proof fn split_keeps_every_event(batch: EventBatch, r: Seq<EventBatch>)
    requires
        is_split(batch, r),
    ensures
        gathered(r) == batch.events@.to_multiset(),
{
    let events = batch.events@;
    if r == seq![batch] {
        assert(r.drop_last() =~= Seq::<EventBatch>::empty());
        assert(gathered(r.drop_last()) == Multiset::<CombatEvent>::empty());
        assert(r.last() == batch);
        assert(gathered(r) =~= events.to_multiset());
    } else {
        let (min, max) = choose|min: int, max: int|
            {
                &&& #[trigger] event::is_min_ts(events, min)
                &&& #[trigger] event::is_max_ts(events, max)
                &&& if max - min <= BATCH_SPLIT_SECS {
                    r == seq![batch]
                } else {
                    is_split_at(batch, min, max, r)
                }
            };
        let n = ((max - min) / (BATCH_SPLIT_SECS as int) + 1) as nat;
        windows_gather(events, min, n);
        gathered_of_windows(r, filled_windows(events, min, n));
        let all = |e: CombatEvent| 0 <= window_of(e, min) < n;
        assert forall|i: int| 0 <= i < events.len() implies all(#[trigger] events[i]) by {
            assert(events[i].spec_ts() <= max);
            assert(min <= events[i].spec_ts());
        }
        filter_all(events, all);
    }
}

/// A predicate that every element meets selects them all.
proof fn filter_all(s: Seq<CombatEvent>, p: spec_fn(CombatEvent) -> bool)
    requires
        forall|i: int| 0 <= i < s.len() ==> p(#[trigger] s[i]),
    ensures
        s.filter(p) == s,
    decreases s.len(),
{
    reveal(Seq::filter);
    if s.len() > 0 {
        let t = s.drop_last();
        assert forall|i: int| 0 <= i < t.len() implies p(#[trigger] t[i]) by {
            assert(t[i] == s[i]);
        }
        filter_all(t, p);
        assert(t.push(s.last()) =~= s);
    }
    assert(s.filter(p) =~= s);
}

/// The non-empty ones of the first `n` windows stand in the order of time.
proof fn windows_in_order(events: Seq<CombatEvent>, min: int, n: nat)
    ensures
        ({
            let f = filled_windows(events, min, n);
            &&& forall|i: int, a: int|
                0 <= i < f.len() && 0 <= a < f[i].len() ==> window_of(#[trigger] f[i][a], min) < n
            &&& forall|i: int| 0 <= i < f.len() ==> (#[trigger] f[i]).len() > 0
            &&& forall|i: int, a: int, b: int|
                0 <= i < f.len() && 0 <= a < f[i].len() && 0 <= b < f[i].len() ==> window_of(
                    #[trigger] f[i][a],
                    min,
                ) == window_of(#[trigger] f[i][b], min)
            &&& forall|i: int, j: int, a: int, b: int|
                0 <= i < j < f.len() && 0 <= a < f[i].len() && 0 <= b < f[j].len() ==> window_of(
                    #[trigger] f[i][a],
                    min,
                ) < window_of(#[trigger] f[j][b], min)
        }),
    decreases n,
{
    if n > 0 {
        let m = (n - 1) as nat;
        windows_in_order(events, min, m);
        let p = |e: CombatEvent| window_of(e, min) == n - 1;
        let last = window_events(events, min, n - 1);
        assert forall|a: int| 0 <= a < last.len() implies window_of(#[trigger] last[a], min) == n
            - 1 by {
            events.lemma_filter_pred(p, a);
        }
        let g = filled_windows(events, min, m);
        let f = filled_windows(events, min, n);
        assert forall|i: int| 0 <= i < g.len() implies f[i] == g[i] by {}
    }
}

/// A split leaves no batch empty, puts the batches in the order of log time,
/// and keeps the events of each within one window.
pub proof fn split_in_time_order(batch: EventBatch, r: Seq<EventBatch>)
    requires
        is_split(batch, r),
        r.len() != 1,
    ensures
        forall|i: int| 0 <= i < r.len() ==> (#[trigger] r[i]).events@.len() > 0,
        forall|i: int, j: int, a: int, b: int|
            0 <= i < j < r.len() && 0 <= a < r[i].events@.len() && 0 <= b < r[j].events@.len()
                ==> (#[trigger] r[i].events@[a]).spec_ts() < (
            #[trigger] r[j].events@[b]).spec_ts(),
        forall|i: int, a: int, b: int|
            0 <= i < r.len() && 0 <= a < r[i].events@.len() && 0 <= b < r[i].events@.len() ==> (
            #[trigger] r[i].events@[a]).spec_ts() - (#[trigger] r[i].events@[b]).spec_ts()
                < BATCH_SPLIT_SECS,
{
    let events = batch.events@;
    let (min, max) = choose|min: int, max: int|
        {
            &&& #[trigger] event::is_min_ts(events, min)
            &&& #[trigger] event::is_max_ts(events, max)
            &&& if max - min <= BATCH_SPLIT_SECS {
                r == seq![batch]
            } else {
                is_split_at(batch, min, max, r)
            }
        };
    let n = ((max - min) / (BATCH_SPLIT_SECS as int) + 1) as nat;
    let f = filled_windows(events, min, n);
    windows_in_order(events, min, n);
    assert forall|i: int, j: int, a: int, b: int|
        0 <= i < j < r.len() && 0 <= a < r[i].events@.len() && 0 <= b < r[j].events@.len() implies (
    #[trigger] r[i].events@[a]).spec_ts() < (#[trigger] r[j].events@[b]).spec_ts() by {
        assert(window_of(f[i][a], min) < window_of(f[j][b], min));
    }
    assert forall|i: int, a: int, b: int|
        0 <= i < r.len() && 0 <= a < r[i].events@.len() && 0 <= b < r[i].events@.len() implies (
    #[trigger] r[i].events@[a]).spec_ts() - (#[trigger] r[i].events@[b]).spec_ts()
        < BATCH_SPLIT_SECS by {
        assert(window_of(f[i][a], min) == window_of(f[i][b], min));
    }
}

/// No batch that a split yields spans more than `BATCH_SPLIT_SECS` of log time.
pub proof fn split_spans_a_window(batch: EventBatch, r: Seq<EventBatch>)
    requires
        is_split(batch, r),
    ensures
        forall|i: int, a: int, b: int|
            0 <= i < r.len() && 0 <= a < r[i].events@.len() && 0 <= b < r[i].events@.len() ==> (
            #[trigger] r[i].events@[a]).spec_ts() - (#[trigger] r[i].events@[b]).spec_ts()
                <= BATCH_SPLIT_SECS,
{
    let events = batch.events@;
    if events.len() > 0 {
        let (min, max) = choose|min: int, max: int|
            {
                &&& #[trigger] event::is_min_ts(events, min)
                &&& #[trigger] event::is_max_ts(events, max)
                &&& if max - min <= BATCH_SPLIT_SECS {
                    r == seq![batch]
                } else {
                    is_split_at(batch, min, max, r)
                }
            };
        if max - min > BATCH_SPLIT_SECS {
            let n = ((max - min) / (BATCH_SPLIT_SECS as int) + 1) as nat;
            let f = filled_windows(events, min, n);
            windows_in_order(events, min, n);
            assert forall|i: int, a: int, b: int|
                0 <= i < r.len() && 0 <= a < r[i].events@.len() && 0 <= b
                    < r[i].events@.len() implies (#[trigger] r[i].events@[a]).spec_ts() - (
            #[trigger] r[i].events@[b]).spec_ts() <= BATCH_SPLIT_SECS by {
                assert(window_of(f[i][a], min) == window_of(f[i][b], min));
            }
        }
    }
}

// ── Sessions ────────────────────────────────────────────────────────────────

/// One play session of a stream: where in the journal it starts, and when.
#[derive(Debug, Clone)]
pub struct SessionEntry {
    pub num: u32,
    pub start_journal_idx: usize,
    pub start_log_ts: u64,
    pub start_wall_ts: u64,
    pub label: String,
}

/// The difference of two readings of the clock, or zero where it would be negative.
pub open spec fn elapsed(later: u64, earlier: u64) -> int {
    if later >= earlier {
        later - earlier
    } else {
        0
    }
}

/// Whether a reconnecting client starts a new session: the journal has content,
/// its last batch came at least `reconnect_gap` seconds ago, and that batch was
/// no replay of old log lines, which is written long after the log's own time.
pub open spec fn reconnect_cuts(
    last_wall_ts: Option<u64>,
    last_log_ts: Option<u64>,
    now: u64,
    reconnect_gap: u64,
) -> bool {
    match (last_wall_ts, last_log_ts) {
        (Some(w), Some(l)) => elapsed(now, w) >= reconnect_gap && elapsed(w, l) < reconnect_gap,
        (Some(w), None) => elapsed(now, w) >= reconnect_gap && 0 < reconnect_gap,
        (None, _) => false,
    }
}

/// Whether a client that reconnects to a journal of `journal_len` batches
/// starts a new session.
pub fn reconnect_starts_session(
    journal_len: usize,
    last_wall_ts: Option<u64>,
    last_log_ts: Option<u64>,
    now: u64,
    reconnect_gap: u64,
) -> (r: bool)
    ensures
        r == (journal_len > 0 && reconnect_cuts(last_wall_ts, last_log_ts, now, reconnect_gap)),
{
    if journal_len == 0 {
        return false;
    }
    let gap: u64 = match last_wall_ts {
        Some(w) => now.saturating_sub(w),
        None => 0,
    };
    let skew: u64 = match (last_wall_ts, last_log_ts) {
        (Some(w), Some(l)) => w.saturating_sub(l),
        _ => 0,
    };
    gap >= reconnect_gap && skew < reconnect_gap
}

/// The log time of the first login among `events`, if there is one.
pub open spec fn first_login(events: Seq<CombatEvent>) -> Option<u64>
    decreases events.len(),
{
    if events.len() == 0 {
        None
    } else {
        match events.first() {
            CombatEvent::Login { ts } => Some(ts as u64),
            _ => first_login(events.drop_first()),
        }
    }
}

/// The log time of the first login in the batch, if there is one.
pub fn login_ts(batch: &EventBatch) -> (r: Option<u64>)
    ensures
        r == first_login(batch.events@),
        r is Some <==> exists|i: int|
            0 <= i < batch.events@.len() && (#[trigger] batch.events@[i]) is Login,
        r matches Some(log_ts) ==> exists|i: int|
            {
                &&& 0 <= i < batch.events@.len()
                &&& (#[trigger] batch.events@[i]) is Login
                &&& batch.events@[i]->Login_ts == log_ts
                &&& forall|j: int| 0 <= j < i ==> !((#[trigger] batch.events@[j]) is Login)
            },
{
    let mut i: usize = 0;
    proof {
        assert(batch.events@.skip(0) =~= batch.events@);
    }
    while i < batch.events.len()
        invariant
            i <= batch.events@.len(),
            first_login(batch.events@) == first_login(batch.events@.skip(i as int)),
            forall|j: int| 0 <= j < i ==> !((#[trigger] batch.events@[j]) is Login),
        decreases batch.events@.len() - i,
    {
        proof {
            assert(batch.events@.skip(i as int).first() == batch.events@[i as int]);
            assert(batch.events@.skip(i as int).drop_first() =~= batch.events@.skip(i + 1));
        }
        if let CombatEvent::Login { ts } = &batch.events[i] {
            return Some(*ts as u64);
        }
        i += 1;
    }
    None
}

/// What the server does with a batch: where a session starts, if one does, and
/// the batches that are appended to the journal, in this order.
pub struct IngestPlan {
    /// The journal position and the log time at which a new session starts.
    pub session: Option<(usize, u64)>,
    pub batches: Vec<EventBatch>,
}

/// What to do with a batch that arrives when the journal holds `journal_len`
/// batches. A login starts a session at the batch that holds it, unless the
/// newest session already starts at that journal position.
pub fn plan_batch(batch: EventBatch, journal_len: usize, last_start_idx: Option<usize>) -> (r:
    IngestPlan)
    ensures
        is_split(batch, r.batches@),
        r.session == match first_login(batch.events@) {
            Some(log_ts) => if last_start_idx == Some(journal_len) {
                None
            } else {
                Some((journal_len, log_ts))
            },
            None => None::<(usize, u64)>,
        },
        r.session is Some <==> last_start_idx != Some(journal_len) && exists|i: int|
            0 <= i < batch.events@.len() && (#[trigger] batch.events@[i]) is Login,
        r.session matches Some((start, log_ts)) ==> start == journal_len && exists|i: int|
            {
                &&& 0 <= i < batch.events@.len()
                &&& (#[trigger] batch.events@[i]) is Login
                &&& batch.events@[i]->Login_ts == log_ts
                &&& forall|j: int| 0 <= j < i ==> !((#[trigger] batch.events@[j]) is Login)
            },
{
    let session: Option<(usize, u64)> = match login_ts(&batch) {
        Some(log_ts) => {
            let repeated: bool = match last_start_idx {
                Some(idx) => idx == journal_len,
                None => false,
            };
            if repeated {
                None
            } else {
                Some((journal_len, log_ts))
            }
        },
        None => None,
    };
    IngestPlan { session, batches: split_by_log_time(batch) }
}

/// The session that follows `sessions` earlier ones.
pub fn cut_session(
    sessions: u32,
    start_journal_idx: usize,
    start_log_ts: u64,
    start_wall_ts: u64,
    label: String,
) -> (r: SessionEntry)
    requires
        sessions < u32::MAX,
    ensures
        r.num == sessions + 1,
        r.start_journal_idx == start_journal_idx,
        r.start_log_ts == start_log_ts,
        r.start_wall_ts == start_wall_ts,
        r.label == label,
{
    SessionEntry { num: sessions + 1, start_journal_idx, start_log_ts, start_wall_ts, label }
}

} // verus!
