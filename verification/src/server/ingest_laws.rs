//! What holds of the batches that arrive: logins, reconnects and splits.
use vstd::prelude::*;

use crate::event;
use crate::event::{CombatEvent, EventBatch};
use crate::server::ingest::filled_windows;
use crate::server::ingest::first_login;
use crate::server::ingest::is_split;
use crate::server::ingest::is_split_at;
use crate::server::ingest::reconnect_cuts;
use crate::server::ingest::window_events;
use crate::server::ingest::window_of;

verus! {

/// The first login counts, wherever in the batch it stands and whatever comes
/// before or after it.
pub proof fn logins_are_found_anywhere(events: Seq<CombatEvent>, i: int)
    requires
        0 <= i < events.len(),
        events[i] is Login,
        forall|j: int| 0 <= j < i ==> !((#[trigger] events[j]) is Login),
    ensures
        first_login(events) == Some(events[i]->Login_ts as u64),
    decreases events.len(),
{
    if i > 0 {
        let rest = events.drop_first();
        assert(!(events[0] is Login));
        assert forall|j: int| 0 <= j < i - 1 implies !((#[trigger] rest[j]) is Login) by {
            assert(rest[j] == events[j + 1]);
        }
        logins_are_found_anywhere(rest, i - 1);
    }
}

/// Without a login in it a batch has no log time of one.
pub proof fn no_login_is_made_up(events: Seq<CombatEvent>)
    ensures
        first_login(events) is None <==> forall|i: int|
            0 <= i < events.len() ==> !((#[trigger] events[i]) is Login),
        first_login(events) matches Some(ts) ==> exists|i: int|
            0 <= i < events.len() && (#[trigger] events[i]) is Login && events[i]->Login_ts == ts,
    decreases events.len(),
{
    if events.len() > 0 {
        let rest = events.drop_first();
        no_login_is_made_up(rest);
        assert forall|i: int| 0 <= i < rest.len() implies (#[trigger] rest[i]) == events[i + 1] by {
        }
        assert(events[0] == events.first());
        if !(events[0] is Login) {
            if first_login(events) is None {
                assert forall|i: int| 0 <= i < events.len() implies !((
                #[trigger] events[i]) is Login) by {
                    if i > 0 {
                        assert(rest[i - 1] == events[i]);
                    }
                }
            } else {
                let k = choose|k: int|
                    0 <= k < rest.len() && (#[trigger] rest[k]) is Login && rest[k]->Login_ts
                        == first_login(rest)->0;
                assert(events[k + 1] is Login);
            }
        }
    }
}

/// The first login of two batches in a row is that of the first batch, or that
/// of the second where the first has none.
pub proof fn earlier_batches_log_in_first(a: Seq<CombatEvent>, b: Seq<CombatEvent>)
    ensures
        first_login(a) is Some ==> first_login(a + b) == first_login(a),
        first_login(a) is None ==> first_login(a + b) == first_login(b),
    decreases a.len(),
{
    if a.len() == 0 {
        assert(a + b =~= b);
    } else {
        assert((a + b).first() == a.first());
        assert((a + b).drop_first() =~= a.drop_first() + b);
        earlier_batches_log_in_first(a.drop_first(), b);
    }
}

// ── Reconnects ──────────────────────────────────────────────────────────────

/// A client that was away for the gap or longer starts a session, unless its last
/// batch was written the gap or longer after the log's own time. A log that is
/// ahead of the clock stands in no session's way.
pub proof fn long_absence_starts_a_session(wall: u64, log: Option<u64>, now: u64, gap: u64)
    requires
        gap > 0,
    ensures
        reconnect_cuts(Some(wall), log, now, gap) <==> wall + gap <= now && (log matches Some(l)
            ==> wall < l + gap),
{
}

/// Before anything was written no session starts, and none does without a gap.
pub proof fn no_session_starts_of_nothing(
    wall: Option<u64>,
    log: Option<u64>,
    now: u64,
    gap: u64,
)
    requires
        wall is None || gap == 0,
    ensures
        !reconnect_cuts(wall, log, now, gap),
{
}

/// The hour of the day does not count: all times later by the same amount give
/// the same answer.
pub proof fn only_differences_of_time_count(
    wall: u64,
    log: u64,
    now: u64,
    gap: u64,
    later: u64,
)
    requires
        wall + later <= u64::MAX,
        log + later <= u64::MAX,
        now + later <= u64::MAX,
    ensures
        reconnect_cuts(Some(wall), Some(log), now, gap) == reconnect_cuts(
            Some((wall + later) as u64),
            Some((log + later) as u64),
            (now + later) as u64,
            gap,
        ),
{
}

/// Whoever stays away longer starts a session all the more, and a shorter gap is
/// passed all the sooner.
pub proof fn longer_absence_cuts_as_well(
    wall: u64,
    log: Option<u64>,
    now: u64,
    later: u64,
    gap: u64,
)
    requires
        now <= later,
        reconnect_cuts(Some(wall), log, now, gap),
    ensures
        reconnect_cuts(Some(wall), log, later, gap),
{
}

// ── Splits ──────────────────────────────────────────────────────────────────

/// A batch whose events are all within a minute stays as it is.
pub proof fn short_batches_stay_whole(batch: EventBatch, r: Seq<EventBatch>)
    requires
        is_split(batch, r),
        forall|i: int, j: int|
            0 <= i < batch.events@.len() && 0 <= j < batch.events@.len() ==> (
            #[trigger] batch.events@[i]).spec_ts() - (#[trigger] batch.events@[j]).spec_ts() <= 60,
    ensures
        r == seq![batch],
{
    let events = batch.events@;
    if events.len() > 0 {
        let (min, max) = bounds(batch, r);
        let i = choose|i: int| 0 <= i < events.len() && (#[trigger] events[i]).spec_ts() == max;
        let j = choose|j: int| 0 <= j < events.len() && (#[trigger] events[j]).spec_ts() == min;
        assert(events[i].spec_ts() - events[j].spec_ts() <= 60);
    }
}

proof fn bounds(batch: EventBatch, r: Seq<EventBatch>) -> (b: (int, int))
    requires
        is_split(batch, r),
        batch.events@.len() > 0,
    ensures
        event::is_min_ts(batch.events@, b.0),
        event::is_max_ts(batch.events@, b.1),
        b.1 - b.0 <= 60 ==> r == seq![batch],
        b.1 - b.0 > 60 ==> is_split_at(batch, b.0, b.1, r),
{
    choose|min: int, max: int|
        {
            &&& #[trigger] event::is_min_ts(batch.events@, min)
            &&& #[trigger] event::is_max_ts(batch.events@, max)
            &&& if max - min <= 60 {
                r == seq![batch]
            } else {
                is_split_at(batch, min, max, r)
            }
        }
}

/// A batch that spans more than a minute does not stay whole.
pub proof fn long_batches_are_split(batch: EventBatch, r: Seq<EventBatch>, i: int, j: int)
    requires
        is_split(batch, r),
        0 <= i < batch.events@.len(),
        0 <= j < batch.events@.len(),
        batch.events@[i].spec_ts() - batch.events@[j].spec_ts() > 60,
    ensures
        r.len() >= 2,
{
    let events = batch.events@;
    let (min, max) = bounds(batch, r);
    assert(events[i].spec_ts() <= max && min <= events[j].spec_ts());
    let n = ((max - min) / 60 + 1) as nat;
    let a = choose|k: int| 0 <= k < events.len() && (#[trigger] events[k]).spec_ts() == min;
    let b = choose|k: int| 0 <= k < events.len() && (#[trigger] events[k]).spec_ts() == max;
    filled_window(events, min, 0, a);
    filled_window(events, min, n - 1, b);
    windows_grow(events, min, 1, (n - 1) as nat);
    assert(filled_windows(events, min, 0) =~= Seq::<Seq<CombatEvent>>::empty());
    assert(filled_windows(events, min, 1).len() == 1);
    assert(filled_windows(events, min, n).len() == filled_windows(
        events,
        min,
        (n - 1) as nat,
    ).len() + 1);
}

proof fn filled_window(events: Seq<CombatEvent>, min: int, w: int, k: int)
    requires
        0 <= k < events.len(),
        window_of(events[k], min) == w,
    ensures
        window_events(events, min, w).len() > 0,
    decreases events.len(),
{
    reveal(Seq::filter);
    if k < events.len() - 1 {
        filled_window(events.drop_last(), min, w, k);
    }
}

proof fn windows_grow(events: Seq<CombatEvent>, min: int, m: nat, n: nat)
    requires
        m <= n,
    ensures
        filled_windows(events, min, m).len() <= filled_windows(events, min, n).len(),
    decreases n,
{
    if m < n {
        windows_grow(events, min, m, (n - 1) as nat);
    }
}

/// The parts are numbered one after the other from the batch's own number on,
/// which starts again at zero after the greatest.
pub proof fn parts_are_numbered_in_order(batch: EventBatch, r: Seq<EventBatch>, i: int)
    requires
        is_split(batch, r),
        0 <= i < r.len(),
    ensures
        i == 0 ==> r[i].seq == batch.seq,
        i > 0 && r[i - 1].seq < u32::MAX ==> r[i].seq == r[i - 1].seq + 1,
        i > 0 && r[i - 1].seq == u32::MAX ==> r[i].seq == 0,
{
    if batch.events@.len() > 0 {
        let (min, max) = bounds(batch, r);
        if max - min > 60 {
            assert(r[i].seq as int == (batch.seq + i) % 0x1_0000_0000);
            if i > 0 {
                assert(r[i - 1].seq as int == (batch.seq + (i - 1)) % 0x1_0000_0000);
            }
        }
    }
}

/// A part holds just those events of the batch that fall in one minute, in the
/// order in which they came; the minutes are counted from the earliest event.
pub proof fn parts_are_minutes_of_the_batch(batch: EventBatch, r: Seq<EventBatch>, i: int)
    requires
        is_split(batch, r),
        r.len() >= 2,
        0 <= i < r.len(),
    ensures
        exists|from: int, first: int|
            #![trigger event::is_min_ts(batch.events@, first), from - first]
            {
                &&& event::is_min_ts(batch.events@, first)
                &&& (from - first) % 60 == 0
                &&& r[i].events@ == batch.events@.filter(
                    |e: CombatEvent| from <= e.spec_ts() < from + 60,
                )
            },
{
    let events = batch.events@;
    let (min, max) = bounds(batch, r);
    let n = ((max - min) / 60 + 1) as nat;
    let w = window_at(events, min, n, i);
    let from = min + 60 * w;
    let p = |e: CombatEvent| window_of(e, min) == w;
    let q = |e: CombatEvent| from <= e.spec_ts() < from + 60;
    assert(p =~= q) by {
        assert forall|e: CombatEvent| #[trigger] p(e) == q(e) by {
            let d = e.spec_ts() as int - min;
            assert((d / 60 == w) == (60 * w <= d < 60 * w + 60));
        }
    }
    assert(r[i].events@ == events.filter(q));
    assert((from - min) % 60 == 0);
    assert(event::is_min_ts(batch.events@, min));
}

proof fn window_at(events: Seq<CombatEvent>, min: int, n: nat, i: int) -> (w: int)
    requires
        0 <= i < filled_windows(events, min, n).len(),
    ensures
        0 <= w < n,
        filled_windows(events, min, n)[i] == window_events(events, min, w),
    decreases n,
{
    let before = filled_windows(events, min, (n - 1) as nat);
    if i < before.len() {
        window_at(events, min, (n - 1) as nat, i)
    } else {
        n - 1
    }
}

} // verus!
