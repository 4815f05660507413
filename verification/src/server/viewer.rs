//! A viewer's session: what it is sent, and how its requests move it through
//! the journal.
//!
//! The speed of a replay is of any type `S`: it is carried along, and only the
//! pacing of the replay looks into it.
use vstd::prelude::*;

use crate::server::journal;
use crate::server::journal::Journal;
use crate::text;

verus! {

/// Number of journal batches to send per loop iteration during catch-up.
/// Amortises per-batch overhead without affecting replay granularity.
pub const CATCHUP_BURST: usize = 32;

/// Seconds between two looks at whether the stream's client is still there.
pub const LIVE_CHECK_SECS: u64 = 2;

/// Messages the viewer sends to the server.
pub enum ClientMsg<S> {
    /// Jump to a specific wall-clock unix timestamp and play at `speed`.
    Seek { to_ts: u64, speed: S },
    /// Seek to a position but remain paused (no batches sent).
    SeekPaused { to_ts: u64 },
    /// Replay all history from the beginning up to `to_ts` at full speed,
    /// then continue replaying at `speed` from that point.
    SeekFull { to_ts: u64, speed: S },
    /// Like SeekFull but remain paused once caught up to `to_ts`.
    SeekFullPaused { to_ts: u64 },
    /// Like SeekFull but seeks by EQ log-event timestamp instead of wall-clock.
    SeekFullLog { to_log_ts: u64, speed: S },
    /// Like SeekFullPaused but seeks by EQ log-event timestamp.
    SeekFullPausedLog { to_log_ts: u64 },
    /// Direct seek by EQ log-event timestamp — jumps to position and replays
    /// without re-streaming history.
    SeekLog { to_log_ts: u64, speed: S },
    /// Like SeekLog but remains paused at the target position.
    SeekPausedLog { to_log_ts: u64 },
    /// Pause replay at the current position.
    Pause,
    /// Resume replay from the paused position at `speed`.
    Resume { speed: S },
    /// Abandon replay and switch to live tail.
    Live,
}

/// Messages the server sends to the viewer, besides the batches.
pub enum ServerMsg {
    /// Timeline metadata — sent once on connect.
    Info {
        first_ts: Option<u64>,
        last_ts: Option<u64>,
        /// EQ log-event timestamp of the first journal entry.
        log_first_ts: Option<u64>,
        /// EQ log-event timestamp of the last journal entry.
        log_last_ts: Option<u64>,
        batch_count: usize,
        /// True while a client is pushing to this stream. False means the
        /// stream is a completed recording and no further live data will arrive.
        is_live: bool,
    },
    /// Acknowledges a seek operation and confirms the timeline bounds.
    SeekOk { first_ts: Option<u64>, last_ts: Option<u64> },
    /// Sent when the server transitions from replay to live mode.
    NowLive,
    /// Sent when catch-up completes on a stream whose client is no longer
    /// connected — signals that no further live data will arrive.
    StreamDone,
}

/// What a viewer's session is doing.
pub enum ViewerMode<S> {
    /// Sending all stored journal batches as fast as the socket allows,
    /// then transitioning to Live.
    CatchUp { pos: usize },
    /// Sending all stored batches from `pos` up to (but not including)
    /// `target_pos` as fast as possible, then replaying from there at
    /// `then_speed`, or pausing where it is `None`.
    CatchUpTo { pos: usize, target_pos: usize, then_speed: Option<S> },
    /// Following the stream as it comes in.
    Live,
    /// Replaying stored batches paced at `speed`.
    Replay { pos: usize, speed: S },
    /// Paused at a specific journal position; waiting for Resume or Seek.
    Paused { pos: usize },
}

/// What the session does next.
pub enum ViewerAction {
    /// Send the batches from `pos` on, at most `limit` of them, one after the
    /// other, until one cannot be read.
    SendBurst { pos: usize, limit: usize },
    /// Send the batch at `pos`.
    SendOne { pos: usize },
    /// Wait for a live batch, for the viewer, or for `LIVE_CHECK_SECS`.
    AwaitLive,
    /// Wait for the viewer.
    AwaitClient,
}

/// Where a seek by time of receipt leads to: in a journal that is in order, the
/// first position whose batch was received at or after `ts`.
pub open spec fn is_wall_position(journal: Journal, ts: u64, pos: usize) -> bool {
    &&& pos == journal::wall_position(journal.index@, ts)
    &&& pos <= journal.index@.len()
    &&& pos > 0 ==> journal.index@[pos - 1].wall_ts < ts
    &&& pos < journal.index@.len() ==> journal.index@[pos as int].wall_ts >= ts
}

/// Where a seek by log time leads to: in a journal that is in order, the first
/// position whose batch was logged at or after `ts`.
pub open spec fn is_log_position(journal: Journal, ts: u64, pos: usize) -> bool {
    &&& pos == journal::log_position(journal.index@, ts)
    &&& pos <= journal.index@.len()
    &&& pos > 0 ==> journal.index@[pos - 1].spec_log_ts() < ts
    &&& pos < journal.index@.len() ==> journal.index@[pos as int].spec_log_ts() >= ts
}

/// The acknowledgement of a seek.
pub open spec fn seek_ok(journal: Journal) -> ServerMsg {
    ServerMsg::SeekOk {
        first_ts: if journal.index@.len() > 0 {
            Some(journal.index@.first().wall_ts)
        } else {
            None
        },
        last_ts: if journal.index@.len() > 0 {
            Some(journal.index@.last().wall_ts)
        } else {
            None
        },
    }
}

/// Whether `(mode, reply)` is what the viewer's message leads to, from the
/// journal position `current_pos`.
pub open spec fn answers<S>(
    msg: ClientMsg<S>,
    journal: Journal,
    current_pos: usize,
    mode: ViewerMode<S>,
    reply: Option<ServerMsg>,
) -> bool {
    match msg {
        ClientMsg::Seek { to_ts, speed } => {
            &&& mode matches ViewerMode::Replay { pos, speed: s }
            &&& is_wall_position(journal, to_ts, pos) && s == speed
            &&& reply == Some(seek_ok(journal))
        },
        ClientMsg::SeekPaused { to_ts } => {
            &&& mode matches ViewerMode::Paused { pos }
            &&& is_wall_position(journal, to_ts, pos)
            &&& reply == Some(seek_ok(journal))
        },
        ClientMsg::SeekFull { to_ts, speed } => {
            &&& mode matches ViewerMode::CatchUpTo { pos, target_pos, then_speed }
            &&& pos == 0 && is_wall_position(journal, to_ts, target_pos) && then_speed == Some(
                speed,
            )
            &&& reply == Some(seek_ok(journal))
        },
        ClientMsg::SeekFullPaused { to_ts } => {
            &&& mode matches ViewerMode::CatchUpTo { pos, target_pos, then_speed }
            &&& pos == 0 && is_wall_position(journal, to_ts, target_pos) && then_speed is None
            &&& reply == Some(seek_ok(journal))
        },
        ClientMsg::SeekFullLog { to_log_ts, speed } => {
            &&& mode matches ViewerMode::CatchUpTo { pos, target_pos, then_speed }
            &&& pos == 0 && is_log_position(journal, to_log_ts, target_pos) && then_speed == Some(
                speed,
            )
            &&& reply == Some(seek_ok(journal))
        },
        ClientMsg::SeekFullPausedLog { to_log_ts } => {
            &&& mode matches ViewerMode::CatchUpTo { pos, target_pos, then_speed }
            &&& pos == 0 && is_log_position(journal, to_log_ts, target_pos) && then_speed is None
            &&& reply == Some(seek_ok(journal))
        },
        ClientMsg::SeekLog { to_log_ts, speed } => {
            &&& mode matches ViewerMode::Replay { pos, speed: s }
            &&& is_log_position(journal, to_log_ts, pos) && s == speed
            &&& reply == Some(seek_ok(journal))
        },
        ClientMsg::SeekPausedLog { to_log_ts } => {
            &&& mode matches ViewerMode::Paused { pos }
            &&& is_log_position(journal, to_log_ts, pos)
            &&& reply == Some(seek_ok(journal))
        },
        ClientMsg::Pause => mode == (ViewerMode::<S>::Paused { pos: current_pos }) && reply is None,
        ClientMsg::Resume { speed } => mode == (ViewerMode::Replay { pos: current_pos, speed })
            && reply is None,
        ClientMsg::Live => mode is Live && reply is None,
    }
}

/// Wrap a raw EventBatch JSON string in the WS envelope without re-parsing.
pub fn wrap_batch(json: &str) -> (r: String)
    ensures
        r@ == "{\"t\":\"batch\",\"batch\":"@ + json@ + "}"@,
{
    let mut s: String = "{\"t\":\"batch\",\"batch\":".to_owned();
    s.append(json);
    s.append("}");
    s
}

/// What a viewer is told of the timeline when it connects.
pub fn timeline_info(journal: &Journal, is_live: bool) -> (r: ServerMsg)
    ensures
        r == (ServerMsg::Info {
            first_ts: if journal.index@.len() > 0 {
                Some(journal.index@.first().wall_ts)
            } else {
                None
            },
            last_ts: if journal.index@.len() > 0 {
                Some(journal.index@.last().wall_ts)
            } else {
                None
            },
            log_first_ts: if journal.index@.len() > 0 {
                Some(journal.index@.first().spec_log_ts())
            } else {
                None
            },
            log_last_ts: if journal.index@.len() > 0 {
                Some(journal.index@.last().spec_log_ts())
            } else {
                None
            },
            batch_count: journal.index@.len() as usize,
            is_live,
        }),
{
    ServerMsg::Info {
        first_ts: journal.first_ts(),
        last_ts: journal.last_ts(),
        log_first_ts: journal.log_first_ts(),
        log_last_ts: journal.log_last_ts(),
        batch_count: journal.len(),
        is_live,
    }
}

/// The acknowledgement of a seek.
fn ack(journal: &Journal) -> (r: ServerMsg)
    ensures
        r == seek_ok(*journal),
{
    ServerMsg::SeekOk { first_ts: journal.first_ts(), last_ts: journal.last_ts() }
}

/// The mode that the viewer's message leads to, and the reply to it.
pub fn handle_client_msg<S>(msg: ClientMsg<S>, journal: &Journal, current_pos: usize) -> (r: (
    ViewerMode<S>,
    Option<ServerMsg>,
))
    ensures
        answers(msg, *journal, current_pos, r.0, r.1),
{
    match msg {
        ClientMsg::Seek { to_ts, speed } => {
            let pos: usize = journal.seek_index(to_ts);
            (ViewerMode::Replay { pos, speed }, Some(ack(journal)))
        },
        ClientMsg::SeekPaused { to_ts } => {
            let pos: usize = journal.seek_index(to_ts);
            (ViewerMode::Paused { pos }, Some(ack(journal)))
        },
        ClientMsg::SeekFull { to_ts, speed } => {
            let target_pos: usize = journal.seek_index(to_ts);
            (
                ViewerMode::CatchUpTo { pos: 0, target_pos, then_speed: Some(speed) },
                Some(ack(journal)),
            )
        },
        ClientMsg::SeekFullPaused { to_ts } => {
            let target_pos: usize = journal.seek_index(to_ts);
            (ViewerMode::CatchUpTo { pos: 0, target_pos, then_speed: None }, Some(ack(journal)))
        },
        ClientMsg::SeekFullLog { to_log_ts, speed } => {
            let target_pos: usize = journal.seek_index_by_log_ts(to_log_ts);
            (
                ViewerMode::CatchUpTo { pos: 0, target_pos, then_speed: Some(speed) },
                Some(ack(journal)),
            )
        },
        ClientMsg::SeekFullPausedLog { to_log_ts } => {
            let target_pos: usize = journal.seek_index_by_log_ts(to_log_ts);
            (ViewerMode::CatchUpTo { pos: 0, target_pos, then_speed: None }, Some(ack(journal)))
        },
        ClientMsg::SeekLog { to_log_ts, speed } => {
            let pos: usize = journal.seek_index_by_log_ts(to_log_ts);
            (ViewerMode::Replay { pos, speed }, Some(ack(journal)))
        },
        ClientMsg::SeekPausedLog { to_log_ts } => {
            let pos: usize = journal.seek_index_by_log_ts(to_log_ts);
            (ViewerMode::Paused { pos }, Some(ack(journal)))
        },
        ClientMsg::Pause => (ViewerMode::Paused { pos: current_pos }, None),
        ClientMsg::Resume { speed } => (ViewerMode::Replay { pos: current_pos, speed }, None),
        ClientMsg::Live => (ViewerMode::Live, None),
    }
}

/// The mode of a viewer that has just connected: the full history, then live.
pub fn initial_mode<S>() -> (r: ViewerMode<S>)
    ensures
        r == (ViewerMode::<S>::CatchUp { pos: 0 }),
{
    ViewerMode::CatchUp { pos: 0 }
}

/// Where a catch-up that has reached its target goes.
pub open spec fn settled<S>(mode: ViewerMode<S>) -> ViewerMode<S> {
    match mode {
        ViewerMode::CatchUpTo { pos, target_pos, then_speed } => if pos >= target_pos {
            match then_speed {
                Some(speed) => ViewerMode::Replay { pos: target_pos, speed },
                None => ViewerMode::Paused { pos: target_pos },
            }
        } else {
            mode
        },
        _ => mode,
    }
}

/// What a session in a given mode does.
pub open spec fn action_of<S>(mode: ViewerMode<S>) -> ViewerAction {
    match mode {
        ViewerMode::CatchUp { pos } => ViewerAction::SendBurst { pos, limit: CATCHUP_BURST },
        ViewerMode::CatchUpTo { pos, target_pos, .. } => ViewerAction::SendBurst {
            pos,
            limit: if target_pos - pos < CATCHUP_BURST {
                (target_pos - pos) as usize
            } else {
                CATCHUP_BURST
            },
        },
        ViewerMode::Live => ViewerAction::AwaitLive,
        ViewerMode::Replay { pos, .. } => ViewerAction::SendOne { pos },
        ViewerMode::Paused { .. } => ViewerAction::AwaitClient,
    }
}

/// What the session does next: a catch-up that has reached its target replays
/// or pauses there; every mode then has its action.
pub fn next_action<S>(mode: ViewerMode<S>) -> (r: (ViewerMode<S>, ViewerAction))
    ensures
        r.0 == settled(mode),
        r.1 == action_of(settled(mode)),
{
    let mode = match mode {
        ViewerMode::CatchUpTo { pos, target_pos, then_speed } => if pos >= target_pos {
            match then_speed {
                Some(speed) => ViewerMode::Replay { pos: target_pos, speed },
                None => ViewerMode::Paused { pos: target_pos },
            }
        } else {
            ViewerMode::CatchUpTo { pos, target_pos, then_speed }
        },
        other => other,
    };
    let action = match &mode {
        ViewerMode::CatchUp { pos } => ViewerAction::SendBurst { pos: *pos, limit: CATCHUP_BURST },
        ViewerMode::CatchUpTo { pos, target_pos, .. } => {
            let left: usize = *target_pos - *pos;
            ViewerAction::SendBurst {
                pos: *pos,
                limit: if left < CATCHUP_BURST {
                    left
                } else {
                    CATCHUP_BURST
                },
            }
        },
        ViewerMode::Live => ViewerAction::AwaitLive,
        ViewerMode::Replay { pos, .. } => ViewerAction::SendOne { pos: *pos },
        ViewerMode::Paused { .. } => ViewerAction::AwaitClient,
    };
    (mode, action)
}

/// Where a session is after it sent `sent` batches in a burst, `exhausted`
/// telling whether it stopped because one could not be read.
pub open spec fn burst_done<S>(
    mode: ViewerMode<S>,
    sent: usize,
    exhausted: bool,
    connected: bool,
) -> (ViewerMode<S>, Option<ServerMsg>) {
    match mode {
        ViewerMode::CatchUp { pos } => {
            let at = (pos + sent) as usize;
            if !exhausted {
                (ViewerMode::CatchUp { pos: at }, None)
            } else if connected {
                (ViewerMode::Live, None)
            } else {
                (ViewerMode::Paused { pos: at }, Some(ServerMsg::StreamDone))
            }
        },
        ViewerMode::CatchUpTo { pos, target_pos, then_speed } => {
            let at = (pos + sent) as usize;
            if !exhausted {
                (ViewerMode::CatchUpTo { pos: at, target_pos, then_speed }, None)
            } else {
                match then_speed {
                    Some(speed) => (ViewerMode::Replay { pos: at, speed }, None),
                    None => (ViewerMode::Paused { pos: at }, None),
                }
            }
        },
        other => (other, None),
    }
}

/// The position that a mode holds; the journal's end where it follows the
/// stream live.
pub open spec fn position<S>(mode: ViewerMode<S>, journal_len: int) -> int {
    match mode {
        ViewerMode::CatchUp { pos } => pos as int,
        ViewerMode::CatchUpTo { pos, .. } => pos as int,
        ViewerMode::Live => journal_len,
        ViewerMode::Replay { pos, .. } => pos as int,
        ViewerMode::Paused { pos } => pos as int,
    }
}

/// The position from which the viewer's messages count.
pub fn current_position<S>(mode: &ViewerMode<S>, journal: &Journal) -> (r: usize)
    ensures
        r == position(*mode, journal.index@.len() as int),
{
    match mode {
        ViewerMode::CatchUp { pos } => *pos,
        ViewerMode::CatchUpTo { pos, .. } => *pos,
        ViewerMode::Live => journal.len(),
        ViewerMode::Replay { pos, .. } => *pos,
        ViewerMode::Paused { pos } => *pos,
    }
}

/// The mode after a burst, and what the viewer is told: a catch-up whose
/// journal is exhausted goes live, or pauses at the end of a completed
/// recording; one with a target replays or pauses where it got to.
pub fn after_burst<S>(mode: ViewerMode<S>, sent: usize, exhausted: bool, connected: bool) -> (r: (
    ViewerMode<S>,
    Option<ServerMsg>,
))
    requires
        position(mode, 0) + sent <= usize::MAX,
    ensures
        r == burst_done(mode, sent, exhausted, connected),
{
    match mode {
        ViewerMode::CatchUp { pos } => {
            let at: usize = pos + sent;
            if !exhausted {
                (ViewerMode::CatchUp { pos: at }, None)
            } else if connected {
                (ViewerMode::Live, None)
            } else {
                (ViewerMode::Paused { pos: at }, Some(ServerMsg::StreamDone))
            }
        },
        ViewerMode::CatchUpTo { pos, target_pos, then_speed } => {
            let at: usize = pos + sent;
            if !exhausted {
                (ViewerMode::CatchUpTo { pos: at, target_pos, then_speed }, None)
            } else {
                match then_speed {
                    Some(speed) => (ViewerMode::Replay { pos: at, speed }, None),
                    None => (ViewerMode::Paused { pos: at }, None),
                }
            }
        },
        other => (other, None),
    }
}

/// The seconds of log time between the batch at `pos` and the one after it;
/// nothing where either is missing.
pub open spec fn log_gap(journal: Journal, pos: int) -> Option<u64> {
    if 0 <= pos && pos + 1 < journal.index@.len() {
        let a = journal.index@[pos].spec_log_ts();
        let b = journal.index@[pos + 1].spec_log_ts();
        Some(if b >= a {
            (b - a) as u64
        } else {
            0
        })
    } else {
        None
    }
}

/// Where a replay is after it sent the batch at its position, or found that it
/// could not be read, and what the viewer is told.
pub open spec fn replay_done<S>(pos: usize, speed: S, sent: bool, connected: bool) -> (
    ViewerMode<S>,
    Option<ServerMsg>,
) {
    if sent {
        (ViewerMode::Replay { pos: (pos + 1) as usize, speed }, None)
    } else if connected {
        (ViewerMode::Live, Some(ServerMsg::NowLive))
    } else {
        (ViewerMode::Paused { pos }, Some(ServerMsg::StreamDone))
    }
}

/// Where a replay is after it sent the batch at its position, or found that it
/// could not be read; how long to wait, in seconds of log time, before the next
/// batch; and what the viewer is told.
pub fn after_replayed<S>(pos: usize, speed: S, sent: bool, connected: bool, journal: &Journal) -> (r:
    (ViewerMode<S>, Option<u64>, Option<ServerMsg>))
    requires
        sent ==> pos < journal.index.len(),
    ensures
        (r.0, r.2) == replay_done(pos, speed, sent, connected),
        r.1 == if sent {
            log_gap(*journal, pos as int)
        } else {
            None
        },
{
    if sent {
        let wait: Option<u64> = match (journal.log_ts_at(pos), journal.log_ts_at(pos + 1)) {
            (Some(a), Some(b)) => Some(b.saturating_sub(a)),
            _ => None,
        };
        (ViewerMode::Replay { pos: pos + 1, speed }, wait, None)
    } else if connected {
        (ViewerMode::Live, None, Some(ServerMsg::NowLive))
    } else {
        (ViewerMode::Paused { pos }, None, Some(ServerMsg::StreamDone))
    }
}

/// What a live session does when it looks whether the client is still there:
/// where it is not, the stream is a completed recording, and the session pauses
/// at its end.
pub fn after_live_check<S>(connected: bool, journal: &Journal) -> (r: (
    ViewerMode<S>,
    Option<ServerMsg>,
))
    ensures
        connected ==> r.0 is Live && r.1 is None,
        !connected ==> r.0 == (ViewerMode::<S>::Paused { pos: journal.index@.len() as usize })
            && r.1 == Some(ServerMsg::StreamDone),
{
    if connected {
        (ViewerMode::Live, None)
    } else {
        (ViewerMode::Paused { pos: journal.len() }, Some(ServerMsg::StreamDone))
    }
}

/// The page of a stream: the template with the stream's identifier, its view
/// token and its player filled in.
pub fn render_page(template: &str, stream_id: &str, view_token: &str, player: &str) -> (r: String)
    ensures
        r@ == text::replaced(
            text::replaced(
                text::replaced(template@, "__STREAM_ID__"@, stream_id@),
                "__VIEW_TOKEN__"@,
                view_token@,
            ),
            "__PLAYER_NAME__"@,
            player@,
        ),
{
    proof {
        reveal_strlit("__STREAM_ID__");
        reveal_strlit("__VIEW_TOKEN__");
        reveal_strlit("__PLAYER_NAME__");
    }
    let a = text::replace(template, "__STREAM_ID__", stream_id);
    let b = text::replace(a.as_str(), "__VIEW_TOKEN__", view_token);
    text::replace(b.as_str(), "__PLAYER_NAME__", player)
}

// ── Laws ────────────────────────────────────────────────────────────────────

/// Whether a session stands within a journal of `len` batches, with its target
/// ahead of it.
pub open spec fn within<S>(mode: ViewerMode<S>, len: int) -> bool {
    match mode {
        ViewerMode::CatchUp { pos } => pos <= len,
        ViewerMode::CatchUpTo { pos, target_pos, .. } => pos <= len && target_pos <= len,
        ViewerMode::Live => true,
        ViewerMode::Replay { pos, .. } => pos <= len,
        ViewerMode::Paused { pos } => pos <= len,
    }
}

/// Whatever a viewer asks, its session stays within the journal.
pub proof fn requests_stay_within<S>(
    msg: ClientMsg<S>,
    journal: Journal,
    current_pos: usize,
    mode: ViewerMode<S>,
    reply: Option<ServerMsg>,
)
    requires
        answers(msg, journal, current_pos, mode, reply),
        current_pos <= journal.index@.len(),
    ensures
        within(mode, journal.index@.len() as int),
{
}

/// A burst asks for no batch past its target, and a session that sends batches
/// that the journal holds stays within the journal.
pub proof fn bursts_stay_within<S>(
    mode: ViewerMode<S>,
    sent: usize,
    exhausted: bool,
    connected: bool,
    len: int,
)
    requires
        within(mode, len),
        len <= usize::MAX,
        position(mode, 0) + sent <= len,
    ensures
        within(settled(mode), len),
        within(burst_done(mode, sent, exhausted, connected).0, len),
        action_of(settled(mode)) matches ViewerAction::SendBurst { pos, limit } ==> {
            &&& limit <= CATCHUP_BURST
            &&& settled(mode) matches ViewerMode::CatchUpTo { target_pos, .. } ==> pos + limit
                <= target_pos && limit > 0
        },
{
}

/// Bursts leave no gap and repeat nothing: while the journal lasts, each starts
/// where the one before it stopped.
pub proof fn bursts_are_contiguous<S>(mode: ViewerMode<S>, sent: usize, connected: bool, len: int)
    requires
        mode is CatchUp || mode is CatchUpTo,
        position(mode, 0) + sent <= usize::MAX,
    ensures
        position(burst_done(mode, sent, false, connected).0, len) == position(mode, len) + sent,
{
}

/// What a viewer is sent.
pub enum Sent {
    /// The batch at a position.
    Batch(int),
    Message(ServerMsg),
}

/// The `count` batches from `pos` on, in order.
pub open spec fn batches_from(pos: int, count: nat) -> Seq<Sent> {
    Seq::new(count, |i: int| Sent::Batch(pos + i))
}

/// A message, if there is one.
pub open spec fn message(m: Option<ServerMsg>) -> Seq<Sent> {
    match m {
        Some(m) => seq![Sent::Message(m)],
        None => Seq::empty(),
    }
}

/// One turn of a session whose viewer sends nothing, on a journal of `len`
/// batches that can all be read: what is sent, and the mode after it. Nothing
/// is sent while the session waits.
pub open spec fn turn<S>(mode: ViewerMode<S>, len: nat, connected: bool) -> (
    Seq<Sent>,
    ViewerMode<S>,
) {
    let at = settled(mode);
    match action_of(at) {
        ViewerAction::SendBurst { pos, limit } => {
            let count = if pos >= len {
                0
            } else if len - pos < limit {
                len - pos
            } else {
                limit as int
            };
            let (next, msg) = burst_done(at, count as usize, count < limit, connected);
            (batches_from(pos as int, count as nat) + message(msg), next)
        },
        ViewerAction::SendOne { pos } => {
            let (next, msg) = replay_done(pos, at->Replay_speed, pos < len, connected);
            let count = if pos < len {
                1nat
            } else {
                0nat
            };
            (batches_from(pos as int, count) + message(msg), next)
        },
        _ => (Seq::empty(), at),
    }
}

/// What such a session sends in its first turns, and the mode after them.
pub open spec fn session<S>(mode: ViewerMode<S>, len: nat, connected: bool, turns: nat) -> (
    Seq<Sent>,
    ViewerMode<S>,
)
    decreases turns,
{
    if turns == 0 {
        (Seq::empty(), mode)
    } else {
        let (sent, next) = turn(mode, len, connected);
        let rest = session(next, len, connected, (turns - 1) as nat);
        (sent + rest.0, rest.1)
    }
}

/// A session that waits goes on waiting.
proof fn waiting_goes_on<S>(mode: ViewerMode<S>, len: nat, connected: bool, turns: nat)
    requires
        mode is Live || mode is Paused,
    ensures
        session(mode, len, connected, turns) == (Seq::<Sent>::empty(), mode),
    decreases turns,
{
    if turns > 0 {
        waiting_goes_on(mode, len, connected, (turns - 1) as nat);
        assert(Seq::<Sent>::empty() + Seq::<Sent>::empty() =~= Seq::<Sent>::empty());
    }
}

proof fn batches_join(pos: int, a: nat, b: nat)
    ensures
        batches_from(pos, a) + batches_from(pos + a, b) == batches_from(pos, a + b),
{
    assert(batches_from(pos, a) + batches_from(pos + a, b) =~= batches_from(pos, a + b));
}

proof fn catching_up_sends_the_rest<S>(pos: usize, len: nat, connected: bool, turns: nat)
    requires
        pos <= len <= usize::MAX,
        turns > (len - pos) / CATCHUP_BURST as int,
    ensures
        session(ViewerMode::<S>::CatchUp { pos }, len, connected, turns) == if connected {
            (batches_from(pos as int, (len - pos) as nat), ViewerMode::<S>::Live)
        } else {
            (
                batches_from(pos as int, (len - pos) as nat) + seq![
                    Sent::Message(ServerMsg::StreamDone),
                ],
                ViewerMode::<S>::Paused { pos: len as usize },
            )
        },
    decreases turns,
{
    let mode = ViewerMode::<S>::CatchUp { pos };
    let left = (len - pos) as nat;
    let (sent, next) = turn(mode, len, connected);
    let done = if connected {
        Seq::<Sent>::empty()
    } else {
        seq![Sent::Message(ServerMsg::StreamDone)]
    };
    if left < CATCHUP_BURST {
        waiting_goes_on(next, len, connected, (turns - 1) as nat);
        assert(sent =~= batches_from(pos as int, left) + done);
        assert(sent + Seq::<Sent>::empty() =~= sent);
        assert(batches_from(pos as int, left) + Seq::<Sent>::empty() =~= batches_from(
            pos as int,
            left,
        ));
    } else {
        let at = (pos + CATCHUP_BURST) as usize;
        assert(sent =~= batches_from(pos as int, CATCHUP_BURST as nat));
        assert(next == ViewerMode::<S>::CatchUp { pos: at });
        catching_up_sends_the_rest::<S>(at, len, connected, (turns - 1) as nat);
        batches_join(pos as int, CATCHUP_BURST as nat, (len - at) as nat);
        let rest = batches_from(at as int, (len - at) as nat);
        assert(sent + (rest + done) =~= (sent + rest) + done);
        assert((sent + rest) =~= batches_from(pos as int, left));
    }
}

/// A viewer that sends nothing is sent the whole journal: the batches from the
/// first to the last, each once and in order. Where no client is connected it
/// is told once that the stream is done, and the session then waits for the
/// viewer; else it goes on live.
pub proof fn silent_viewers_see_everything<S>(len: nat, connected: bool, turns: nat)
    requires
        len <= usize::MAX,
        turns > len as int / CATCHUP_BURST as int,
    ensures
        session(ViewerMode::<S>::CatchUp { pos: 0 }, len, connected, turns) == if connected {
            (batches_from(0, len), ViewerMode::<S>::Live)
        } else {
            (
                batches_from(0, len).push(Sent::Message(ServerMsg::StreamDone)),
                ViewerMode::<S>::Paused { pos: len as usize },
            )
        },
        action_of(ViewerMode::<S>::Paused { pos: len as usize }) is AwaitClient,
        action_of(ViewerMode::<S>::Live) is AwaitLive,
{
    catching_up_sends_the_rest::<S>(0, len, connected, turns);
    assert(batches_from(0, len) + seq![Sent::Message(ServerMsg::StreamDone)] =~= batches_from(
        0,
        len,
    ).push(Sent::Message(ServerMsg::StreamDone)));
}

/// A replay that is left alone sends the batches from its position on, each once
/// and in order, and then goes live or is done.
pub proof fn replays_send_the_rest<S>(pos: usize, speed: S, len: nat, connected: bool, turns: nat)
    requires
        pos <= len <= usize::MAX,
        turns > len - pos,
    ensures
        session(ViewerMode::Replay { pos, speed }, len, connected, turns) == if connected {
            (
                batches_from(pos as int, (len - pos) as nat).push(Sent::Message(ServerMsg::NowLive)),
                ViewerMode::<S>::Live,
            )
        } else {
            (
                batches_from(pos as int, (len - pos) as nat).push(
                    Sent::Message(ServerMsg::StreamDone),
                ),
                ViewerMode::<S>::Paused { pos: len as usize },
            )
        },
    decreases turns,
{
    let mode = ViewerMode::Replay { pos, speed };
    let (sent, next) = turn(mode, len, connected);
    let left = (len - pos) as nat;
    if pos == len {
        waiting_goes_on(next, len, connected, (turns - 1) as nat);
        assert(sent + Seq::<Sent>::empty() =~= sent);
        let m = if connected {
            ServerMsg::NowLive
        } else {
            ServerMsg::StreamDone
        };
        assert(sent =~= batches_from(pos as int, left).push(Sent::Message(m)));
    } else {
        let at = (pos + 1) as usize;
        assert(sent =~= batches_from(pos as int, 1));
        replays_send_the_rest(at, speed, len, connected, (turns - 1) as nat);
        let rest = session(next, len, connected, (turns - 1) as nat).0;
        let m = if connected {
            ServerMsg::NowLive
        } else {
            ServerMsg::StreamDone
        };
        assert(sent + rest =~= batches_from(pos as int, left).push(Sent::Message(m)));
    }
}

/// A full seek goes through the whole history up to its target: once that many
/// batches were sent, the session stands at the target, replaying or paused.
pub proof fn full_seek_reaches_its_target<S>(target_pos: usize, then_speed: Option<S>)
    ensures
        settled(ViewerMode::CatchUpTo { pos: target_pos, target_pos, then_speed })
            == match then_speed {
            Some(speed) => ViewerMode::Replay { pos: target_pos, speed },
            None => ViewerMode::Paused { pos: target_pos },
        },
{
}

} // verus!
