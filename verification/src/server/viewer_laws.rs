//! What holds of a viewer's session, whatever the journal and the request.
use vstd::prelude::*;

use crate::server::journal;
use crate::server::journal::{IndexEntry, Journal};
use crate::server::viewer::answers;
use crate::server::viewer::batches_from;
use crate::server::viewer::burst_done;
use crate::server::viewer::log_gap;
use crate::server::viewer::position;
use crate::server::viewer::session;
use crate::server::viewer::turn;
use crate::server::viewer::{ClientMsg, Sent, ServerMsg, ViewerMode};

verus! {

/// When a batch was logged; when it was received where that was not recorded.
pub open spec fn logged_at(e: IndexEntry) -> int {
    if e.log_ts is Some {
        e.log_ts->0 as int
    } else {
        e.wall_ts as int
    }
}

/// Whether a position parts the journal at a time of receipt: what stands
/// before it came earlier, and what stands from it on did not.
pub open spec fn parts_by_receipt(journal: Journal, ts: u64, pos: usize) -> bool {
    &&& pos <= journal.index@.len()
    &&& forall|i: int| 0 <= i < pos ==> (#[trigger] journal.index@[i]).wall_ts < ts
    &&& forall|i: int|
        pos <= i < journal.index@.len() ==> (#[trigger] journal.index@[i]).wall_ts >= ts
}

/// Whether a position parts the journal at a log time: what stands before it was
/// logged earlier, and what stands from it on was not.
pub open spec fn parts_by_log(journal: Journal, ts: u64, pos: usize) -> bool {
    &&& pos <= journal.index@.len()
    &&& forall|i: int| 0 <= i < pos ==> logged_at(#[trigger] journal.index@[i]) < ts
    &&& forall|i: int|
        pos <= i < journal.index@.len() ==> logged_at(#[trigger] journal.index@[i]) >= ts
}

/// A seek by log time goes by the times at which the batches were logged: it
/// leads to the position before which all were logged earlier than asked, and
/// from which on none was. A direct seek goes on from there, at the speed asked
/// for or paused; a full one starts at the first batch and has that position as
/// its target.
pub proof fn log_seeks_go_by_log_time<S>(
    msg: ClientMsg<S>,
    journal: Journal,
    current_pos: usize,
    mode: ViewerMode<S>,
    reply: Option<ServerMsg>,
)
    requires
        answers(msg, journal, current_pos, mode, reply),
        forall|i: int, j: int|
            0 <= i <= j < journal.index@.len() ==> logged_at(#[trigger] journal.index@[i])
                <= logged_at(#[trigger] journal.index@[j]),
    ensures
        msg matches ClientMsg::SeekLog { to_log_ts, speed } ==> mode is Replay && parts_by_log(
            journal,
            to_log_ts,
            mode->Replay_pos,
        ) && mode->Replay_speed == speed,
        msg matches ClientMsg::SeekPausedLog { to_log_ts } ==> mode is Paused && parts_by_log(
            journal,
            to_log_ts,
            mode->Paused_pos,
        ),
        msg matches ClientMsg::SeekFullLog { to_log_ts, speed } ==> mode is CatchUpTo
            && parts_by_log(journal, to_log_ts, mode->target_pos) && mode->CatchUpTo_pos == 0
            && mode->then_speed == Some(speed),
        msg matches ClientMsg::SeekFullPausedLog { to_log_ts } ==> mode is CatchUpTo
            && parts_by_log(journal, to_log_ts, mode->target_pos) && mode->CatchUpTo_pos == 0
            && mode->then_speed == None::<S>,
{
    assert forall|i: int| 0 <= i < journal.index@.len() implies logged_at(
        #[trigger] journal.index@[i],
    ) == journal.index@[i].spec_log_ts() by {}
}

/// A seek by time of receipt goes by the times at which the batches came,
/// whatever their log times are.
pub proof fn seeks_go_by_time_of_receipt<S>(
    msg: ClientMsg<S>,
    journal: Journal,
    current_pos: usize,
    mode: ViewerMode<S>,
    reply: Option<ServerMsg>,
)
    requires
        answers(msg, journal, current_pos, mode, reply),
        forall|i: int, j: int|
            0 <= i <= j < journal.index@.len() ==> (#[trigger] journal.index@[i]).wall_ts <= (
            #[trigger] journal.index@[j]).wall_ts,
    ensures
        msg matches ClientMsg::Seek { to_ts, speed } ==> mode is Replay && parts_by_receipt(
            journal,
            to_ts,
            mode->Replay_pos,
        ) && mode->Replay_speed == speed,
        msg matches ClientMsg::SeekPaused { to_ts } ==> mode is Paused && parts_by_receipt(
            journal,
            to_ts,
            mode->Paused_pos,
        ),
        msg matches ClientMsg::SeekFull { to_ts, speed } ==> mode is CatchUpTo
            && parts_by_receipt(journal, to_ts, mode->target_pos) && mode->CatchUpTo_pos == 0
            && mode->then_speed == Some(speed),
        msg matches ClientMsg::SeekFullPaused { to_ts } ==> mode is CatchUpTo && parts_by_receipt(
            journal,
            to_ts,
            mode->target_pos,
        ) && mode->CatchUpTo_pos == 0 && mode->then_speed == None::<S>,
{
}

/// Whether a message seeks by log time.
pub open spec fn seeks_log<S>(msg: ClientMsg<S>) -> bool {
    msg is SeekLog || msg is SeekPausedLog || msg is SeekFullLog || msg is SeekFullPausedLog
}

/// Whether a message seeks by time of receipt.
pub open spec fn seeks_receipt<S>(msg: ClientMsg<S>) -> bool {
    msg is Seek || msg is SeekPaused || msg is SeekFull || msg is SeekFullPaused
}

/// When the batches were received changes nothing of a seek by log time, in any
/// journal, in order or not: two journals with the same log times give the same
/// mode.
pub proof fn receipt_does_not_move_log_seeks<S>(
    msg: ClientMsg<S>,
    a: Journal,
    b: Journal,
    at_a: usize,
    at_b: usize,
    mode_a: ViewerMode<S>,
    mode_b: ViewerMode<S>,
    reply_a: Option<ServerMsg>,
    reply_b: Option<ServerMsg>,
)
    requires
        seeks_log(msg),
        a.index@.len() == b.index@.len(),
        forall|i: int|
            0 <= i < a.index@.len() ==> logged_at(#[trigger] a.index@[i]) == logged_at(b.index@[i]),
        answers(msg, a, at_a, mode_a, reply_a),
        answers(msg, b, at_b, mode_b, reply_b),
    ensures
        mode_a == mode_b,
{
    assert(journal::log_times(a.index@) =~= journal::log_times(b.index@)) by {
        assert forall|i: int| 0 <= i < a.index@.len() implies journal::log_times(a.index@)[i]
            == journal::log_times(b.index@)[i] by {
            assert(logged_at(a.index@[i]) == logged_at(b.index@[i]));
        }
    }
}

/// What the batches' log times are changes nothing of a seek by time of receipt.
pub proof fn log_time_does_not_move_seeks<S>(
    msg: ClientMsg<S>,
    a: Journal,
    b: Journal,
    at_a: usize,
    at_b: usize,
    mode_a: ViewerMode<S>,
    mode_b: ViewerMode<S>,
    reply_a: Option<ServerMsg>,
    reply_b: Option<ServerMsg>,
)
    requires
        seeks_receipt(msg),
        a.index@.len() == b.index@.len(),
        forall|i: int|
            0 <= i < a.index@.len() ==> (#[trigger] a.index@[i]).wall_ts == b.index@[i].wall_ts,
        answers(msg, a, at_a, mode_a, reply_a),
        answers(msg, b, at_b, mode_b, reply_b),
    ensures
        mode_a == mode_b,
        reply_a == reply_b,
{
    assert(journal::wall_times(a.index@) =~= journal::wall_times(b.index@)) by {
        assert forall|i: int| 0 <= i < a.index@.len() implies journal::wall_times(a.index@)[i]
            == journal::wall_times(b.index@)[i] by {
            assert(a.index@[i].wall_ts == b.index@[i].wall_ts);
        }
    }
}

/// Every seek is acknowledged with the times of receipt of the first and the
/// last batch; nothing else that a viewer asks is.
pub proof fn seeks_are_acknowledged<S>(
    msg: ClientMsg<S>,
    journal: Journal,
    current_pos: usize,
    mode: ViewerMode<S>,
    reply: Option<ServerMsg>,
)
    requires
        answers(msg, journal, current_pos, mode, reply),
    ensures
        reply is Some <==> seeks_log(msg) || seeks_receipt(msg),
        reply matches Some(m) ==> m is SeekOk,
        reply is Some && journal.index@.len() == 0 ==> reply->0->SeekOk_first_ts is None
            && reply->0->SeekOk_last_ts is None,
        reply is Some && journal.index@.len() > 0 ==> {
            &&& reply->0->SeekOk_first_ts == Some(journal.index@[0].wall_ts)
            &&& reply->0->SeekOk_last_ts == Some(
                journal.index@[journal.index@.len() - 1].wall_ts,
            )
        },
{
}

/// A viewer that pauses and resumes goes on where it was, at the speed that it
/// asks for.
pub proof fn resuming_goes_on_where_it_paused<S>(
    journal: Journal,
    pos: usize,
    speed: S,
    paused: ViewerMode<S>,
    resumed: ViewerMode<S>,
    first: Option<ServerMsg>,
    second: Option<ServerMsg>,
)
    requires
        answers(ClientMsg::Pause, journal, pos, paused, first),
        answers(
            ClientMsg::Resume { speed },
            journal,
            position(paused, journal.index@.len() as int) as usize,
            resumed,
            second,
        ),
    ensures
        paused is Paused,
        position(paused, journal.index@.len() as int) == pos,
        resumed is Replay,
        position(resumed, journal.index@.len() as int) == pos,
        resumed->Replay_speed == speed,
        first is None,
        second is None,
{
}

/// Whoever asks to watch live does, from the end of the journal, and is told
/// nothing more.
pub proof fn live_goes_to_the_end<S>(
    journal: Journal,
    pos: usize,
    mode: ViewerMode<S>,
    reply: Option<ServerMsg>,
)
    requires
        answers(ClientMsg::Live, journal, pos, mode, reply),
    ensures
        mode is Live,
        reply is None,
        position(mode, journal.index@.len() as int) == journal.index@.len(),
{
}

/// A full seek that is left alone sends the history from the first batch up to
/// its target, each batch once and in order, and stands there: replaying at the
/// speed asked for, or paused.
pub proof fn full_seeks_send_the_history<S>(
    pos: usize,
    target_pos: usize,
    then_speed: Option<S>,
    len: nat,
    connected: bool,
) -> (turns: nat)
    requires
        pos <= target_pos <= len <= usize::MAX,
    ensures
        session(
            ViewerMode::CatchUpTo { pos, target_pos, then_speed },
            len,
            connected,
            turns,
        ).0 == batches_from(pos as int, (target_pos - pos) as nat),
        ({
            let mode = session(
                ViewerMode::CatchUpTo { pos, target_pos, then_speed },
                len,
                connected,
                turns,
            ).1;
            &&& position(mode, len as int) == target_pos
            &&& mode is CatchUpTo
            &&& turn(mode, len, connected).0.len() <= 1
            &&& then_speed is None ==> turn(mode, len, connected) == (
                Seq::<Sent>::empty(),
                ViewerMode::<S>::Paused { pos: target_pos },
            )
            &&& then_speed matches Some(speed) ==> turn(mode, len, connected) == turn(
                ViewerMode::Replay { pos: target_pos, speed },
                len,
                connected,
            )
        }),
    decreases target_pos - pos,
{
    let mode = ViewerMode::CatchUpTo { pos, target_pos, then_speed };
    if pos == target_pos {
        assert(batches_from(pos as int, 0) =~= Seq::<Sent>::empty());
        0
    } else {
        let (sent, next) = turn(mode, len, connected);
        let count = if target_pos - pos < 32 {
            target_pos - pos
        } else {
            32
        };
        let at = (pos + count) as usize;
        assert(sent =~= batches_from(pos as int, count as nat));
        assert(next == ViewerMode::CatchUpTo { pos: at, target_pos, then_speed });
        let more = full_seeks_send_the_history(at, target_pos, then_speed, len, connected);
        assert(sent + batches_from(at as int, (target_pos - at) as nat) =~= batches_from(
            pos as int,
            (target_pos - pos) as nat,
        ));
        more + 1
    }
}

/// A burst that comes to a batch that cannot be read keeps its place. A viewer
/// that was catching up with the stream is live if a client is connected, and
/// else is told that the stream is done; one on its way to a target replays or
/// pauses where it got to, and is told nothing.
pub proof fn interrupted_bursts_keep_their_place<S>(
    mode: ViewerMode<S>,
    sent: usize,
    connected: bool,
    len: int,
)
    requires
        mode is CatchUp || mode is CatchUpTo,
        position(mode, len) + sent <= usize::MAX,
    ensures
        ({
            let (next, told) = burst_done(mode, sent, true, connected);
            &&& mode is CatchUp && connected ==> next is Live && told is None
            &&& !(mode is CatchUp && connected) ==> position(next, len) == position(mode, len)
                + sent
            &&& mode is CatchUp && !connected ==> next is Paused && told == Some(
                ServerMsg::StreamDone,
            )
            &&& mode is CatchUpTo ==> told is None
            &&& mode is CatchUpTo && mode->then_speed is None ==> next is Paused
            &&& mode is CatchUpTo && mode->then_speed is Some ==> next is Replay
                && next->Replay_speed == mode->then_speed->0
        }),
{
}

/// A replay waits between two batches for as long as lies between their log
/// times: the wait, put behind the first, gives the second. It does not wait
/// where the second was not logged later, nor after the last batch.
pub proof fn replays_wait_as_long_as_the_log(journal: Journal, pos: int)
    requires
        0 <= pos < journal.index@.len(),
    ensures
        pos + 1 == journal.index@.len() ==> log_gap(journal, pos) is None,
        pos + 1 < journal.index@.len() ==> {
            let here = logged_at(journal.index@[pos]);
            let next = logged_at(journal.index@[pos + 1]);
            &&& log_gap(journal, pos) is Some
            &&& here <= next ==> here + log_gap(journal, pos)->0 == next
            &&& here > next ==> log_gap(journal, pos)->0 == 0
        },
{
}

/// A read of several batches takes as many as were asked for, or as many as there
/// are from its position on, whichever is less.
pub proof fn bursts_take_what_there_is(len: nat, pos: nat, count: nat)
    ensures
        journal::burst_size(len, pos, count) <= count,
        pos + count <= len ==> journal::burst_size(len, pos, count) == count,
        pos <= len < pos + count ==> pos + journal::burst_size(len, pos, count) == len,
        pos >= len ==> journal::burst_size(len, pos, count) == 0,
{
}

} // verus!
