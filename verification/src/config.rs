//! The settings that the client keeps between runs, and what follows from them:
//! which log is watched, where events are pushed, which address is shared.
use vstd::prelude::*;

use crate::text;

verus! {

/// Voice speed multiplier for TTS playback.
#[derive(Debug, Clone, Copy, PartialEq, Eq, Structural)]
pub enum TtsSpeed {
    /// 1.0× — natural speech rate.
    Normal,
    /// 1.2×
    Fast,
    /// 1.5×
    Faster,
    /// 2.0×
    Fastest,
}

/// How concurrent TTS alerts are handled when audio is already playing.
#[derive(Debug, Clone, Copy, PartialEq, Eq, Structural)]
pub enum TtsAudioMode {
    /// Emergency alerts cut in immediately; Operational alerts queue; Ambient alerts are
    /// suppressed while any audio is playing.
    SmartPriority,
    /// Every alert is queued and spoken in order, regardless of priority.
    QueueAll,
    /// Every new alert interrupts whatever is currently playing.
    InterruptConstantly,
}

/// Which alert presentation is active.
#[derive(Debug, Clone, Copy, PartialEq, Eq, Structural)]
pub enum AlertStyle {
    /// A standalone flying alert window plus a separate history window.
    Separate,
    /// One combined window where alerts land directly at the top of the
    /// history list instead of flying in a window of their own.
    Merged,
}

/// Entrance/exit animation for the Notice overlay.
#[derive(Debug, Clone, Copy, PartialEq, Eq, Structural)]
pub enum NoticeTransition {
    /// Opacity only, no movement.
    Fade,
    /// Rises in from below while fading.
    Slide,
    /// Enters from the side while fading.
    Fly,
}

/// Shared chrome for an overlay window: whether it's shown, whether it's
/// click-through (locked in place), and its last dragged position.
#[derive(Debug, Clone, Copy, PartialEq, Eq, Structural)]
pub struct OverlayWindowConfig {
    pub enabled: bool,
    pub locked: bool,
    /// -1 = auto-position.
    pub x: i32,
    /// -1 = auto-position.
    pub y: i32,
}

/// The coordinate of a window that the program places.
pub const AUTO_POS: i32 = -1;

/// An unlocked window at the position that the program picks.
pub open spec fn unplaced_window(enabled: bool) -> OverlayWindowConfig {
    OverlayWindowConfig { enabled, locked: false, x: AUTO_POS, y: AUTO_POS }
}

fn unplaced(enabled: bool) -> (r: OverlayWindowConfig)
    ensures
        r == unplaced_window(enabled),
{
    OverlayWindowConfig { enabled, locked: false, x: AUTO_POS, y: AUTO_POS }
}

impl Default for OverlayWindowConfig {
    fn default() -> (r: Self)
        ensures
            r == unplaced_window(false),
    {
        unplaced(false)
    }
}

// ── Names in paths ──────────────────────────────────────────────────────────

/// The last of the segments that are neither empty nor a single dot.
pub open spec fn last_named(segments: Seq<Seq<char>>) -> Option<Seq<char>>
    decreases segments.len(),
{
    if segments.len() == 0 {
        None
    } else if segments.last().len() > 0 && segments.last() != seq!['.'] {
        Some(segments.last())
    } else {
        last_named(segments.drop_last())
    }
}

/// The name that the segments of a path end in; none where they end in two dots.
pub open spec fn final_name(segments: Seq<Seq<char>>) -> Option<Seq<char>> {
    match last_named(segments) {
        Some(name) => if name == seq!['.', '.'] {
            None
        } else {
            Some(name)
        },
        None => None,
    }
}

/// The name of a path's file, where slashes part the segments.
pub open spec fn unix_file_name(path: Seq<char>) -> Option<Seq<char>> {
    final_name(text::pieces(path, '/'))
}

/// Whether a character is a letter from A to Z, in either case.
pub open spec fn is_letter(c: char) -> bool {
    'a' <= c <= 'z' || 'A' <= c <= 'Z'
}

/// A path without the letter and the colon of its drive, and with slashes in
/// place of backslashes.
pub open spec fn without_drive(path: Seq<char>) -> Seq<char> {
    let rest = if path.len() >= 2 && is_letter(path[0]) && path[1] == ':' {
        path.skip(2)
    } else {
        path
    };
    rest.map_values(
        |c: char|
            if c == '\\' {
                '/'
            } else {
                c
            },
    )
}

/// The name of a path's file, where slashes and backslashes part the segments and
/// a drive can stand before them.
pub open spec fn windows_file_name(path: Seq<char>) -> Option<Seq<char>> {
    final_name(text::pieces(without_drive(path), '/'))
}

/// Whether a path begins as one to a share does: with two slashes, of either kind.
pub open spec fn begins_as_share(path: Seq<char>) -> bool {
    path.len() >= 2 && (path[0] == '/' || path[0] == '\\') && (path[1] == '/' || path[1] == '\\')
}

/// Whether `r` is the name of a path's file on one of the systems: the two kinds
/// part paths differently. What the name in a path to a share is, is left open.
pub open spec fn is_file_name(path: Seq<char>, r: Option<Seq<char>>) -> bool {
    begins_as_share(path) || r == unix_file_name(path) || r == windows_file_name(path)
}

/// A name's stem, where there is a name.
pub open spec fn opt_stem(name: Option<Seq<char>>) -> Option<Seq<char>> {
    match name {
        Some(n) => Some(stem_of_name(n)),
        None => None,
    }
}

/// Whether `r` is the stem of a path's file on one of the systems.
pub open spec fn is_stem(path: Seq<char>, r: Option<Seq<char>>) -> bool {
    begins_as_share(path) || r == opt_stem(unix_file_name(path)) || r == opt_stem(
        windows_file_name(path),
    )
}

/// Whether a path's file has the same name on every system.
pub open spec fn has_one_name(path: Seq<char>) -> bool {
    !begins_as_share(path) && unix_file_name(path) == windows_file_name(path)
}

/// A file's name without its extension: what precedes the last dot, unless that
/// is the name's first character.
pub open spec fn stem_of_name(name: Seq<char>) -> Seq<char>
    decreases name.len(),
{
    if name.len() == 0 {
        name
    } else {
        match last_dot(name) {
            Some(i) => if i == 0 {
                name
            } else {
                name.take(i)
            },
            None => name,
        }
    }
}

/// Where the last dot stands.
pub open spec fn last_dot(s: Seq<char>) -> Option<int>
    decreases s.len(),
{
    if s.len() == 0 {
        None
    } else if s.last() == '.' {
        Some(s.len() - 1)
    } else {
        last_dot(s.drop_last())
    }
}

/// `std::path::Path::file_name`: the final component of a path, if it is a normal one. Repeated
/// separators, a separator at the end and components of a single dot do not count, and two dots
/// are no name. What parts components, and whether a drive can stand before them, is the
/// system's; nothing is said of a path to a share.
#[verifier::external_body]
fn path_file_name(path: &str) -> (r: Option<String>)
    ensures
        is_file_name(path@, text::opt_view(r)),
{
    std::path::Path::new(path).file_name().and_then(|n| n.to_str()).map(|n| n.to_string())
}

/// `std::path::Path::file_stem`: the name that `Path::file_name` gives, without its extension:
/// what precedes the last dot, unless that is the name's first character.
#[verifier::external_body]
fn path_file_stem(path: &str) -> (r: Option<String>)
    ensures
        is_stem(path@, text::opt_view(r)),
{
    std::path::Path::new(path).file_stem().and_then(|n| n.to_str()).map(|n| n.to_string())
}

/// The player in the stem of an `eqlog_{player}_{server}.txt`-style filename.
pub open spec fn player_in(stem: Option<Seq<char>>) -> Option<Seq<char>> {
    match stem {
        Some(s) => {
            let parts = text::pieces(s, '_');
            if parts.len() >= 3 {
                Some(parts[1])
            } else {
                None
            }
        },
        None => None,
    }
}

/// The server in the stem of an `eqlog_{player}_{server}.txt`-style filename:
/// all that follows the player.
pub open spec fn server_in(stem: Option<Seq<char>>) -> Option<Seq<char>> {
    match stem {
        Some(s) => {
            let parts = text::pieces(s, '_');
            if parts.len() >= 3 {
                Some(text::joined(parts.skip(2), "_"@))
            } else {
                None
            }
        },
        None => None,
    }
}

/// The player in the stem of an `eqlog_{player}_{server}.txt`-style filename.
pub fn player_of_stem(stem: &Option<String>) -> (r: Option<String>)
    ensures
        text::opt_view(r) == player_in(text::opt_view(*stem)),
{
    match stem {
        Some(s) => {
            let parts = text::split(s.as_str(), '_');
            proof {
                assert(text::views(parts@).len() == parts@.len());
            }
            if parts.len() >= 3 {
                proof {
                    assert(text::views(parts@)[1] == parts@[1]@);
                }
                Some(parts[1].clone())
            } else {
                None
            }
        },
        None => None,
    }
}

/// The server in the stem of an `eqlog_{player}_{server}.txt`-style filename.
pub fn server_of_stem(stem: &Option<String>) -> (r: Option<String>)
    ensures
        text::opt_view(r) == server_in(text::opt_view(*stem)),
{
    match stem {
        Some(s) => {
            let parts = text::split(s.as_str(), '_');
            proof {
                assert(text::views(parts@).len() == parts@.len());
            }
            if parts.len() >= 3 {
                Some(text::join_from(&parts, 2, "_"))
            } else {
                None
            }
        },
        None => None,
    }
}

/// Whether `r` is what `path` says, through its file's stem.
pub open spec fn through_stem(
    path: Seq<char>,
    r: Option<Seq<char>>,
    read: spec_fn(Option<Seq<char>>) -> Option<Seq<char>>,
) -> bool {
    exists|stem: Option<Seq<char>>| #[trigger] is_stem(path, stem) && r == read(stem)
}

/// Derives a player name from an `eqlog_{player}_{server}.txt`-style filename.
pub fn player_name_from_path(path: &str) -> (r: Option<String>)
    ensures
        through_stem(path@, text::opt_view(r), |s: Option<Seq<char>>| player_in(s)),
{
    let stem = path_file_stem(path);
    let r = player_of_stem(&stem);
    proof {
        assert(is_stem(path@, text::opt_view(stem)));
    }
    r
}

/// Derives a server name from an `eqlog_{player}_{server}.txt`-style filename.
pub fn server_name_from_path(path: &str) -> (r: Option<String>)
    ensures
        through_stem(path@, text::opt_view(r), |s: Option<Seq<char>>| server_in(s)),
{
    let stem = path_file_stem(path);
    let r = server_of_stem(&stem);
    proof {
        assert(is_stem(path@, text::opt_view(stem)));
    }
    r
}

// ── Log profiles ────────────────────────────────────────────────────────────

/// A named EverQuest log file the user has configured — one game
/// install/character's `eqlog_*.txt`. Multiple profiles may exist; exactly one
/// is watched at a time, chosen by `Config::log_watch_mode`.
pub struct LogProfile {
    pub name: String,
    pub path: String,
    /// Game id, e.g. "eql" for Everquest Legends.
    pub game: Option<String>,
    /// Explicit server name; overrides filename extraction when set.
    pub server: Option<String>,
    /// Explicit player name; overrides filename extraction when set.
    pub player: Option<String>,
    /// Whether this profile exposes a public /player/{game}/{server}/{player}
    /// URL when it's the active stream.
    pub public_stream: bool,
}

/// The explicit name where it is not empty, else the one that was derived, else
/// nothing.
pub open spec fn effective_name(explicit: Option<Seq<char>>, derived: Option<Seq<char>>) -> Seq<char> {
    match explicit {
        Some(s) => if s.len() > 0 {
            s
        } else {
            name_or_empty(derived)
        },
        None => name_or_empty(derived),
    }
}

/// A name, or the empty text.
pub open spec fn name_or_empty(s: Option<Seq<char>>) -> Seq<char> {
    match s {
        Some(t) => t,
        None => Seq::empty(),
    }
}

/// The explicit name where it is not empty, else the one that was derived, else
/// nothing.
pub fn effective(explicit: &Option<String>, derived: Option<String>) -> (r: String)
    ensures
        r@ == effective_name(text::opt_view(*explicit), text::opt_view(derived)),
{
    if let Some(s) = explicit {
        if !s.as_str().is_empty() {
            return s.clone();
        }
    }
    match derived {
        Some(t) => t,
        None => String::new(),
    }
}

/// Whether `r` is the name that a profile goes by: the explicit one where it is
/// not empty, else the one that its path yields.
pub open spec fn is_effective(
    explicit: Option<Seq<char>>,
    path: Seq<char>,
    r: Seq<char>,
    read: spec_fn(Option<Seq<char>>) -> Option<Seq<char>>,
) -> bool {
    exists|derived: Option<Seq<char>>| #[trigger]
        through_stem(path, derived, read) && r == effective_name(explicit, derived)
}

impl LogProfile {
    /// Best-effort player name: explicit field first, then derived from this
    /// profile's log filename.
    pub fn effective_player(&self) -> (r: String)
        ensures
            is_effective(
                text::opt_view(self.player),
                self.path@,
                r@,
                |s: Option<Seq<char>>| player_in(s),
            ),
    {
        let derived = player_name_from_path(self.path.as_str());
        effective(&self.player, derived)
    }

    /// Best-effort server name: explicit field first, then derived from this
    /// profile's log filename (e.g. "Test" from eqlog_Name_Test.txt).
    pub fn effective_server(&self) -> (r: String)
        ensures
            is_effective(
                text::opt_view(self.server),
                self.path@,
                r@,
                |s: Option<Seq<char>>| server_in(s),
            ),
    {
        let derived = server_name_from_path(self.path.as_str());
        effective(&self.server, derived)
    }
}

/// Which log profile is actively tailed.
pub enum LogWatchMode {
    /// Watch whichever configured profile's file was written to most recently.
    Auto,
    /// Always watch the named profile, regardless of other profiles' activity.
    Pinned(String),
}

// ── The settings ────────────────────────────────────────────────────────────

/// All settings. `F` is the type of the lengths of time that are no whole
/// number of seconds.
pub struct Config<F> {
    /// Legacy single-logfile path: read once, when it becomes a log profile.
    pub log_path: Option<String>,
    /// Configured log files, each a distinct EQ install/character.
    pub log_profiles: Vec<LogProfile>,
    /// Which `log_profiles` entry is currently watched.
    pub log_watch_mode: LogWatchMode,
    /// Base HTTP URL of the froklog-server, e.g. `http://server:8766`.
    pub server_url: Option<String>,
    /// Secret stream token used to authenticate the ingest WebSocket.
    pub stream_token: Option<String>,
    /// Public stream ID.
    pub stream_id: Option<String>,
    /// Viewer token embedded in the shareable URL.
    pub view_token: Option<String>,
    /// Optional password required by the froklog-server to create streams.
    pub stream_password: Option<String>,
    /// Legacy global toggle: read once, when it moves into the profiles.
    pub public_stream: bool,
    /// Whether the log-tail engine is enabled.
    pub logging_enabled: bool,
    /// Whether parsed events are pushed to the remote server.
    pub remote_logging_enabled: bool,
    /// Whether trigger "Play Sound" actions play at all.
    pub sound_enabled: bool,
    /// Overall volume applied to trigger "Play Sound" actions, 0-100.
    pub sound_volume: u8,
    /// Name of the currently active sound package.
    pub sound_package: String,
    /// Standalone alert overlay window — used when `alert_style` is `Separate`.
    pub overlay_alert: OverlayWindowConfig,
    /// Standalone history overlay window — used when `alert_style` is `Separate`.
    pub overlay_history: OverlayWindowConfig,
    /// DPS/Tank/Heal meter window.
    pub overlay_meter: OverlayWindowConfig,
    /// Combined alert+history overlay window — used when `alert_style` is `Merged`.
    pub overlay_merged: OverlayWindowConfig,
    /// Notice overlay window — runs independently of `alert_style`.
    pub overlay_notice: OverlayWindowConfig,
    /// Which alert presentation is active.
    pub alert_style: AlertStyle,
    /// Seconds of no new log-file lines before every overlay window is
    /// force-hidden. 0 = Never.
    pub overlay_hide_inactive_secs: u32,
    /// Window opacity 0–255 (255 = fully opaque).
    pub overlay_alpha: u8,
    /// Font family for overlay text. Empty = system default.
    pub overlay_font: String,
    /// Font point size at the start of the fly-in animation.
    pub overlay_start_font_size: u32,
    /// Font point size at the peak / hold of the fly-in animation.
    pub overlay_max_font_size: u32,
    /// Milliseconds for the fly-in and shrink-out animations.
    pub overlay_fly_ms: u32,
    /// Seconds the message holds at peak size before shrinking away.
    pub overlay_hold_secs: F,
    /// Font point size for history rows.
    pub overlay_history_font_size: u32,
    /// Seconds of inactivity before the history overlay auto-hides. 0 = never.
    pub overlay_history_idle_secs: u32,
    /// Maximum number of rows kept in the history overlay.
    pub overlay_history_max_entries: usize,
    /// Minutes a history row is kept before aging out. 0 = never.
    pub overlay_history_max_age_mins: u32,
    /// History overlay window width in pixels.
    pub overlay_history_width: i32,
    pub overlay_merged_start_font_size: u32,
    pub overlay_merged_max_font_size: u32,
    pub overlay_merged_fly_ms: u32,
    pub overlay_merged_hold_secs: F,
    pub overlay_merged_alpha: u8,
    pub overlay_merged_history_font_size: u32,
    pub overlay_merged_history_idle_secs: u32,
    pub overlay_merged_history_max_entries: usize,
    pub overlay_merged_history_max_age_mins: u32,
    /// Fixed font point size of the Notice overlay.
    pub overlay_notice_font_size: u32,
    pub overlay_notice_transition: NoticeTransition,
    pub overlay_notice_transition_ms: u32,
    pub overlay_notice_hold_secs: F,
    pub overlay_notice_alpha: u8,
    /// Maximum number of ranked rows shown per tab of the meter.
    pub meter_max_rows: usize,
    /// Seconds of inactivity before the meter auto-hides. 0 = never hide.
    pub meter_idle_secs: u32,
    pub meter_font_size: u32,
    pub meter_width: i32,
    pub meter_share_bars: bool,
    /// Per-column meter widths in px. 0 = auto.
    pub meter_amount_w: i32,
    pub meter_rate_w: i32,
    pub meter_bar_w: i32,
    pub meter_sec_w: i32,
    /// Whether Text-to-Speech is enabled globally.
    pub tts_enabled: bool,
    /// Overall volume (0-100) applied to spoken TTS alerts.
    pub tts_volume: u8,
    pub tts_speed: TtsSpeed,
    pub tts_audio_mode: TtsAudioMode,
    pub tts_read_emergency: bool,
    pub tts_read_operational: bool,
    pub tts_read_ambient: bool,
    /// Voice name.
    pub tts_voice: String,
}

/// The web-socket form of a server's address.
pub open spec fn ws_base(base: Seq<char>) -> Seq<char> {
    text::replaced_first(
        text::replaced_first(base, "https://"@, "wss://"@),
        "http://"@,
        "ws://"@,
    )
}

/// The address at which a client pushes the stream `id` to the server `base`.
pub open spec fn ingest_url_of(base: Seq<char>, id: Seq<char>) -> Seq<char> {
    text::without_trailing(ws_base(base), '/') + "/ingest/"@ + id
}

/// The address at which a viewer watches the stream `id` of the server `base`.
pub open spec fn viewer_url_of(base: Seq<char>, id: Seq<char>, vtok: Seq<char>) -> Seq<char> {
    text::without_trailing(base, '/') + "/stream/"@ + id + "?vtok="@ + vtok
}

/// The address at which the public watches a player.
pub open spec fn player_url_of(
    base: Seq<char>,
    game: Seq<char>,
    server: Seq<char>,
    player: Seq<char>,
) -> Seq<char> {
    text::without_trailing(base, '/') + "/player/"@ + game + "/"@ + server + "/"@ + player
}

/// Whether `i` is the profile whose file was written last, the later one where
/// two were written at the same time; `times` holds when each file was written,
/// where that is known.
pub open spec fn is_newest(times: Seq<Option<i128>>, i: int) -> bool {
    &&& 0 <= i < times.len()
    &&& times[i] is Some
    &&& forall|j: int|
        0 <= j < times.len() && (#[trigger] times[j]) is Some ==> times[j]->0 <= times[i]->0 && (j
            > i ==> times[j]->0 < times[i]->0)
}

/// Whether `i` is the first profile with the name `name`.
pub open spec fn is_first_named(profiles: Seq<LogProfile>, name: Seq<char>, i: int) -> bool {
    &&& 0 <= i < profiles.len()
    &&& profiles[i].name@ == name
    &&& forall|j: int| 0 <= j < i ==> (#[trigger] profiles[j]).name@ != name
}

/// Whether `r` is the position of the profile that is watched: the pinned one,
/// or the one whose file was written last; the first one where there is no such
/// profile; none where there is no profile at all.
pub open spec fn is_active(
    profiles: Seq<LogProfile>,
    mode: LogWatchMode,
    times: Seq<Option<i128>>,
    r: Option<usize>,
) -> bool {
    if profiles.len() == 0 {
        r is None
    } else {
        &&& r is Some
        &&& r->0 < profiles.len()
        &&& match mode {
            LogWatchMode::Pinned(name) => {
                ||| is_first_named(profiles, name@, r->0 as int)
                ||| {
                    &&& r->0 == 0
                    &&& forall|j: int| 0 <= j < profiles.len() ==> (#[trigger] profiles[j]).name@ != name@
                }
            },
            LogWatchMode::Auto => {
                ||| is_newest(times, r->0 as int)
                ||| r->0 == 0 && forall|j: int| 0 <= j < times.len() ==> (#[trigger] times[j]) is None
            },
        }
    }
}

impl<F> Config<F> {
    /// Whether every setting is at its documented default: those of a file that
    /// holds no setting where `remote` is set.
    pub open spec fn has_defaults(
        &self,
        hold_secs: F,
        merged_hold_secs: F,
        notice_hold_secs: F,
        remote: bool,
    ) -> bool {
        &&& self.log_path is None
        &&& self.log_profiles@.len() == 0
        &&& self.log_watch_mode is Auto
        &&& self.server_url is None
        &&& self.stream_token is None
        &&& self.stream_id is None
        &&& self.view_token is None
        &&& self.stream_password is None
        &&& !self.public_stream
        &&& self.logging_enabled
        &&& self.remote_logging_enabled == remote
        &&& self.sound_enabled
        &&& self.sound_volume == 100
        &&& self.sound_package@ == "default"@
        &&& self.overlay_alert == unplaced_window(false)
        &&& self.overlay_history == unplaced_window(true)
        &&& self.overlay_meter == unplaced_window(false)
        &&& self.overlay_merged == unplaced_window(false)
        &&& self.overlay_notice == unplaced_window(false)
        &&& self.alert_style == AlertStyle::Separate
        &&& self.overlay_hide_inactive_secs == 30
        &&& self.overlay_alpha == 255
        &&& self.overlay_font@.len() == 0
        &&& self.overlay_start_font_size == 6
        &&& self.overlay_max_font_size == 60
        &&& self.overlay_fly_ms == 1000
        &&& self.overlay_hold_secs == hold_secs
        &&& self.overlay_history_font_size == 12
        &&& self.overlay_history_idle_secs == 0
        &&& self.overlay_history_max_entries == 8
        &&& self.overlay_history_max_age_mins == 0
        &&& self.overlay_history_width == 0
        &&& self.overlay_merged_start_font_size == 6
        &&& self.overlay_merged_max_font_size == 60
        &&& self.overlay_merged_fly_ms == 1000
        &&& self.overlay_merged_hold_secs == merged_hold_secs
        &&& self.overlay_merged_alpha == 255
        &&& self.overlay_merged_history_font_size == 12
        &&& self.overlay_merged_history_idle_secs == 0
        &&& self.overlay_merged_history_max_entries == 8
        &&& self.overlay_merged_history_max_age_mins == 0
        &&& self.overlay_notice_font_size == 20
        &&& self.overlay_notice_transition == NoticeTransition::Fade
        &&& self.overlay_notice_transition_ms == 400
        &&& self.overlay_notice_hold_secs == notice_hold_secs
        &&& self.overlay_notice_alpha == 255
        &&& self.meter_max_rows == 8
        &&& self.meter_idle_secs == 0
        &&& self.meter_font_size == 12
        &&& self.meter_width == 360
        &&& !self.meter_share_bars
        &&& self.meter_amount_w == 0
        &&& self.meter_rate_w == 0
        &&& self.meter_bar_w == 0
        &&& self.meter_sec_w == 0
        &&& self.tts_enabled
        &&& self.tts_volume == 100
        &&& self.tts_speed == TtsSpeed::Normal
        &&& self.tts_audio_mode == TtsAudioMode::SmartPriority
        &&& self.tts_read_emergency
        &&& self.tts_read_operational
        &&& self.tts_read_ambient
        &&& self.tts_voice@ == "en_US-amy-low"@
    }

    /// The settings of a file that holds none. The three lengths of time that are
    /// no whole number of seconds are given.
    pub fn of_empty_file(hold_secs: F, merged_hold_secs: F, notice_hold_secs: F) -> (r: Self)
        ensures
            r.has_defaults(hold_secs, merged_hold_secs, notice_hold_secs, true),
    {
        Config {
            log_path: None,
            log_profiles: Vec::new(),
            log_watch_mode: LogWatchMode::Auto,
            server_url: None,
            stream_token: None,
            stream_id: None,
            view_token: None,
            stream_password: None,
            public_stream: false,
            logging_enabled: true,
            remote_logging_enabled: true,
            sound_enabled: true,
            sound_volume: 100,
            sound_package: "default".to_owned(),
            overlay_alert: unplaced(false),
            overlay_history: unplaced(true),
            overlay_meter: unplaced(false),
            overlay_merged: unplaced(false),
            overlay_notice: unplaced(false),
            alert_style: AlertStyle::Separate,
            overlay_hide_inactive_secs: 30,
            overlay_alpha: 255,
            overlay_font: String::new(),
            overlay_start_font_size: 6,
            overlay_max_font_size: 60,
            overlay_fly_ms: 1000,
            overlay_hold_secs: hold_secs,
            overlay_history_font_size: 12,
            overlay_history_idle_secs: 0,
            overlay_history_max_entries: 8,
            overlay_history_max_age_mins: 0,
            overlay_history_width: 0,
            overlay_merged_start_font_size: 6,
            overlay_merged_max_font_size: 60,
            overlay_merged_fly_ms: 1000,
            overlay_merged_hold_secs: merged_hold_secs,
            overlay_merged_alpha: 255,
            overlay_merged_history_font_size: 12,
            overlay_merged_history_idle_secs: 0,
            overlay_merged_history_max_entries: 8,
            overlay_merged_history_max_age_mins: 0,
            overlay_notice_font_size: 20,
            overlay_notice_transition: NoticeTransition::Fade,
            overlay_notice_transition_ms: 400,
            overlay_notice_hold_secs: notice_hold_secs,
            overlay_notice_alpha: 255,
            meter_max_rows: 8,
            meter_idle_secs: 0,
            meter_font_size: 12,
            meter_width: 360,
            meter_share_bars: false,
            meter_amount_w: 0,
            meter_rate_w: 0,
            meter_bar_w: 0,
            meter_sec_w: 0,
            tts_enabled: true,
            tts_volume: 100,
            tts_speed: TtsSpeed::Normal,
            tts_audio_mode: TtsAudioMode::SmartPriority,
            tts_read_emergency: true,
            tts_read_operational: true,
            tts_read_ambient: true,
            tts_voice: "en_US-amy-low".to_owned(),
        }
    }

    /// The defaults used when no config exists yet: those of a config file that
    /// holds no setting, except that nothing is pushed to a server.
    pub fn fresh(hold_secs: F, merged_hold_secs: F, notice_hold_secs: F) -> (r: Self)
        ensures
            r.has_defaults(hold_secs, merged_hold_secs, notice_hold_secs, false),
    {
        let empty = Config::of_empty_file(hold_secs, merged_hold_secs, notice_hold_secs);
        Config { remote_logging_enabled: false, ..empty }
    }

    /// The address at which events are pushed, if the settings give one.
    pub open spec fn spec_ingest_url(&self) -> Option<Seq<char>> {
        match (self.server_url, self.stream_id) {
            (Some(base), Some(id)) => Some(ingest_url_of(base@, id@)),
            _ => None,
        }
    }

    /// The address of the stream's private page, if the settings give one.
    pub open spec fn spec_viewer_url(&self) -> Option<Seq<char>> {
        match (self.server_url, self.stream_id, self.view_token) {
            (Some(base), Some(id), Some(vtok)) => Some(viewer_url_of(base@, id@, vtok@)),
            _ => None,
        }
    }

    /// Returns the WebSocket ingest URL, e.g. `ws://server:8766/ingest/<id>`.
    pub fn ingest_ws_url(&self) -> (r: Option<String>)
        ensures
            text::opt_view(r) == self.spec_ingest_url(),
    {
        match (&self.server_url, &self.stream_id) {
            (Some(base), Some(id)) => {
                proof {
                    reveal_strlit("https://");
                    reveal_strlit("http://");
                }
                let a = text::replace_first(base.as_str(), "https://", "wss://");
                let b = text::replace_first(a.as_str(), "http://", "ws://");
                let mut url = text::trim_end_matches(b.as_str(), '/');
                url.append("/ingest/");
                url.append(id.as_str());
                Some(url)
            },
            _ => None,
        }
    }

    /// Returns the full shareable viewer URL.
    pub fn viewer_url(&self) -> (r: Option<String>)
        ensures
            text::opt_view(r) == self.spec_viewer_url(),
    {
        match (&self.server_url, &self.stream_id, &self.view_token) {
            (Some(base), Some(id), Some(vtok)) => {
                let mut url = text::trim_end_matches(base.as_str(), '/');
                url.append("/stream/");
                url.append(id.as_str());
                url.append("?vtok=");
                url.append(vtok.as_str());
                Some(url)
            },
            _ => None,
        }
    }

    /// Returns the appropriate stream URL to share. `times` holds when each
    /// profile's file was written last, where that is known.
    /// Public streams use the /player/{game}/{server}/{player} route;
    /// private streams use /stream/{id}?vtok={token}.
    pub fn stream_url(&self, times: &Vec<Option<i128>>) -> (r: Option<String>)
        requires
            times@.len() == self.log_profiles@.len(),
        ensures
            self.server_url is None ==> r is None,
            self.server_url is Some ==> exists|active: Option<usize>|
                {
                    &&& #[trigger] is_active(
                        self.log_profiles@,
                        self.log_watch_mode,
                        times@,
                        active,
                    )
                    &&& active is Some && self.log_profiles@[active->0 as int].public_stream
                        ==> self.is_public_url(active->0 as int, text::opt_view(r))
                    &&& !(active is Some && self.log_profiles@[active->0 as int].public_stream)
                        ==> text::opt_view(r) == self.spec_viewer_url()
                },
    {
        let base = match &self.server_url {
            Some(b) => b,
            None => {
                return None;
            },
        };
        let active = self.active_index(times);
        if let Some(i) = active {
            let profile = &self.log_profiles[i];
            if profile.public_stream {
                let stem = path_file_stem(profile.path.as_str());
                let server = effective(&profile.server, server_of_stem(&stem));
                let player = effective(&profile.player, player_of_stem(&stem));
                let r = match &profile.game {
                    Some(game) => if server.as_str().is_empty() || player.as_str().is_empty() {
                        None
                    } else {
                        let mut url = text::trim_end_matches(base.as_str(), '/');
                        url.append("/player/");
                        url.append(game.as_str());
                        url.append("/");
                        url.append(server.as_str());
                        url.append("/");
                        url.append(player.as_str());
                        Some(url)
                    },
                    None => None,
                };
                proof {
                    assert(is_stem(profile.path@, text::opt_view(stem)));
                }
                return r;
            }
        }
        self.viewer_url()
    }

    /// Whether `r` is the public address of the profile `i`.
    pub open spec fn is_public_url(&self, i: int, r: Option<Seq<char>>) -> bool {
        let p = self.log_profiles@[i];
        exists|stem: Option<Seq<char>>| #[trigger]
            is_stem(p.path@, stem) && r == public_url_of(
                self.server_url->0@,
                text::opt_view(p.game),
                effective_name(text::opt_view(p.server), server_in(stem)),
                effective_name(text::opt_view(p.player), player_in(stem)),
            )
    }

    /// Returns true when there's enough config to run the local engine (tailer,
    /// parser, triggers, DPS meter) regardless of remote server availability.
    pub fn local_ready(&self) -> (r: bool)
        ensures
            r == (self.log_profiles@.len() > 0),
    {
        self.log_profiles.len() > 0
    }

    /// Returns true when the config has everything needed to start pushing.
    pub fn is_ready(&self) -> (r: bool)
        ensures
            r == (self.log_profiles@.len() > 0 && self.spec_ingest_url() is Some
                && self.stream_token is Some),
    {
        self.local_ready() && self.ingest_ws_url().is_some() && self.stream_token.is_some()
    }

    /// Returns true when remote push should actually run: the user hasn't
    /// disabled it and the server credentials are present.
    pub fn remote_ready(&self) -> (r: bool)
        ensures
            r == (self.remote_logging_enabled && self.log_profiles@.len() > 0
                && self.spec_ingest_url() is Some && self.stream_token is Some),
    {
        self.remote_logging_enabled && self.is_ready()
    }

    /// Returns true when stream credentials have been obtained from a server.
    pub fn is_registered(&self) -> (r: bool)
        ensures
            r == (self.stream_id is Some && self.stream_token is Some && self.view_token is Some),
    {
        self.stream_id.is_some() && self.stream_token.is_some() && self.view_token.is_some()
    }

    /// The position of the profile that is watched.
    pub fn active_index(&self, times: &Vec<Option<i128>>) -> (r: Option<usize>)
        requires
            times@.len() == self.log_profiles@.len(),
        ensures
            is_active(self.log_profiles@, self.log_watch_mode, times@, r),
    {
        let n: usize = self.log_profiles.len();
        if n == 0 {
            return None;
        }
        match &self.log_watch_mode {
            LogWatchMode::Pinned(name) => {
                let mut i: usize = 0;
                while i < n
                    invariant
                        self.log_watch_mode == LogWatchMode::Pinned(*name),
                        n == self.log_profiles@.len(),
                        i <= n,
                        forall|j: int|
                            0 <= j < i ==> (#[trigger] self.log_profiles@[j]).name@ != name@,
                    decreases n - i,
                {
                    if self.log_profiles[i].name == *name {
                        return Some(i);
                    }
                    i += 1;
                }
                Some(0)
            },
            LogWatchMode::Auto => {
                let mut best: Option<usize> = None;
                let mut i: usize = 0;
                while i < n
                    invariant
                        n == times@.len(),
                        i <= n,
                        best is None ==> forall|j: int|
                            0 <= j < i ==> (#[trigger] times@[j]) is None,
                        best is Some ==> best->0 < i && times@[best->0 as int] is Some
                            && forall|j: int|
                            0 <= j < i && (#[trigger] times@[j]) is Some ==> times@[j]->0
                                <= times@[best->0 as int]->0 && (j > best->0 ==> times@[j]->0
                                < times@[best->0 as int]->0),
                    decreases n - i,
                {
                    if let Some(t) = times[i] {
                        let newer: bool = match best {
                            Some(b) => match times[b] {
                                Some(u) => t >= u,
                                None => true,
                            },
                            None => true,
                        };
                        if newer {
                            best = Some(i);
                        }
                    }
                    i += 1;
                }
                match best {
                    Some(b) => {
                        proof {
                            assert(is_newest(times@, b as int));
                        }
                        Some(b)
                    },
                    None => Some(0),
                }
            },
        }
    }

    /// Resolves which configured log profile is currently active. `times` holds
    /// when each profile's file was written last, where that is known.
    pub fn resolve_active_profile(&self, times: &Vec<Option<i128>>) -> (r: Option<&LogProfile>)
        requires
            times@.len() == self.log_profiles@.len(),
        ensures
            exists|active: Option<usize>| #[trigger]
                is_active(self.log_profiles@, self.log_watch_mode, times@, active) && match active {
                    Some(i) => r == Some(&self.log_profiles@[i as int]),
                    None => r is None,
                },
    {
        match self.active_index(times) {
            Some(i) => Some(&self.log_profiles[i]),
            None => None,
        }
    }

    /// Resolves which configured log file is currently the active one.
    pub fn resolve_active_log_path(&self, times: &Vec<Option<i128>>) -> (r: Option<String>)
        requires
            times@.len() == self.log_profiles@.len(),
        ensures
            exists|active: Option<usize>| #[trigger]
                is_active(self.log_profiles@, self.log_watch_mode, times@, active) && match active {
                    Some(i) => r == Some(self.log_profiles@[i as int].path),
                    None => r is None,
                },
    {
        match self.active_index(times) {
            Some(i) => Some(self.log_profiles[i].path.clone()),
            None => None,
        }
    }

    /// One-time migration of the legacy single-`log_path` field into a
    /// `Pinned` log profile.
    pub fn migrate_legacy_log_path(self) -> (r: Self)
        ensures
            self.log_path is None ==> r == self,
            self.log_path is Some ==> {
                &&& r.log_path is None
                &&& r.log_profiles@.len() == self.log_profiles@.len() + 1
                &&& r.log_profiles@.drop_last() == self.log_profiles@
                &&& is_migrated(self.log_path->0, r.log_profiles@.last())
                &&& r.log_watch_mode matches LogWatchMode::Pinned(name) && name@
                    == r.log_profiles@.last().name@
                &&& r == (Config {
                    log_path: r.log_path,
                    log_profiles: r.log_profiles,
                    log_watch_mode: r.log_watch_mode,
                    ..self
                })
            },
    {
        let mut migrated = self;
        let path = match migrated.log_path.take() {
            Some(p) => p,
            None => {
                return migrated;
            },
        };
        let player = player_name_from_path(path.as_str());
        let server = server_name_from_path(path.as_str());
        let file = path_file_name(path.as_str());
        let name = profile_name(&player, &server, &file);
        migrated.log_watch_mode = LogWatchMode::Pinned(name.clone());
        let profile = LogProfile {
            name,
            path,
            game: Some("eql".to_owned()),
            server,
            player,
            public_stream: false,
        };
        let ghost before = migrated.log_profiles@;
        proof {
            assert(is_file_name(profile.path@, text::opt_view(file)));
            assert(is_migrated(profile.path, profile));
        }
        migrated.log_profiles.push(profile);
        proof {
            assert(migrated.log_profiles@.drop_last() =~= before);
        }
        migrated
    }

    /// One-time migration of the legacy global `public_stream` toggle into
    /// every configured profile's own `LogProfile::public_stream`: it applied
    /// to whichever profile was active.
    pub fn migrate_legacy_public_stream(self) -> (r: Self)
        ensures
            !r.public_stream,
            r.log_profiles@.len() == self.log_profiles@.len(),
            forall|i: int|
                0 <= i < r.log_profiles@.len() ==> (#[trigger] r.log_profiles@[i]) == (LogProfile {
                    public_stream: true,
                    ..self.log_profiles@[i]
                }),
            r == (Config { public_stream: false, log_profiles: r.log_profiles, ..self }),
    {
        let mut migrated = self;
        let ghost before = migrated.log_profiles@;
        let n: usize = migrated.log_profiles.len();
        let mut i: usize = 0;
        while i < n
            invariant
                n == before.len(),
                i <= n,
                migrated.log_profiles@.len() == n,
                before == self.log_profiles@,
                migrated == (Config { log_profiles: migrated.log_profiles, ..self }),
                forall|j: int|
                    0 <= j < i ==> (#[trigger] migrated.log_profiles@[j]) == (LogProfile {
                        public_stream: true,
                        ..before[j]
                    }),
                forall|j: int| i <= j < n ==> (#[trigger] migrated.log_profiles@[j]) == before[j],
            decreases n - i,
        {
            migrated.log_profiles[i].public_stream = true;
            i += 1;
        }
        migrated.public_stream = false;
        migrated
    }

    /// The settings as the program uses them, given what was read from the
    /// file, and whether they have to be written back: settings of older
    /// versions are brought up to date once.
    pub fn loaded(self) -> (r: (Self, bool))
        ensures
            r.1 == self.needs_migration(),
            !r.1 ==> r.0 == self,
            !r.0.needs_migration(),
            self.log_profiles@.len() == 0 && self.log_path is Some ==> {
                &&& r.0.log_profiles@.len() == 1
                &&& is_migrated(
                    self.log_path->0,
                    LogProfile { public_stream: false, ..r.0.log_profiles@[0] },
                )
                &&& r.0.log_profiles@[0].public_stream == self.public_stream
                &&& r.0.log_watch_mode matches LogWatchMode::Pinned(name) && name@
                    == r.0.log_profiles@[0].name@
                &&& r.0.log_path is None
            },
            !(self.log_profiles@.len() == 0 && self.log_path is Some) ==> {
                &&& r.0.log_path == self.log_path
                &&& r.0.log_watch_mode == self.log_watch_mode
                &&& r.0.log_profiles@.len() == self.log_profiles@.len()
                &&& forall|i: int|
                    0 <= i < r.0.log_profiles@.len() ==> (#[trigger] r.0.log_profiles@[i]) == (
                    LogProfile {
                        public_stream: self.public_stream
                            || self.log_profiles@[i].public_stream,
                        ..self.log_profiles@[i]
                    })
            },
            r.0 == (Config {
                log_path: r.0.log_path,
                log_profiles: r.0.log_profiles,
                log_watch_mode: r.0.log_watch_mode,
                public_stream: false,
                ..self
            }),
    {
        let legacy: bool = self.log_profiles.len() == 0 && self.log_path.is_some();
        let public: bool = self.public_stream;
        let cfg = if legacy {
            self.migrate_legacy_log_path()
        } else {
            self
        };
        let cfg = if public {
            cfg.migrate_legacy_public_stream()
        } else {
            cfg
        };
        (cfg, legacy || public)
    }

    /// Whether the settings are those of an older version: a log path and no
    /// profile, or one toggle for all profiles.
    pub open spec fn needs_migration(&self) -> bool {
        (self.log_profiles@.len() == 0 && self.log_path is Some) || self.public_stream
    }
}

/// The public address of a profile that goes by `server` and `player`: none where
/// its game or one of those names is missing.
pub open spec fn public_url_of(
    base: Seq<char>,
    game: Option<Seq<char>>,
    server: Seq<char>,
    player: Seq<char>,
) -> Option<Seq<char>> {
    if game is None || server.len() == 0 || player.len() == 0 {
        None
    } else {
        Some(player_url_of(base, game->0, server, player))
    }
}

/// Whether a profile's name is the one that a migrated log file gets: its
/// player and its server, where both are known, else the file's name.
pub open spec fn named_after(
    name: Seq<char>,
    player: Option<Seq<char>>,
    server: Option<Seq<char>>,
    file: Option<Seq<char>>,
) -> bool {
    name == match (player, server) {
        (Some(p), Some(s)) => p + "  ("@ + s + ")"@,
        _ => match file {
            Some(f) => f,
            None => "Log Profile"@,
        },
    }
}

/// Whether `p` is the profile that the log file `path` becomes.
pub open spec fn is_migrated(path: String, p: LogProfile) -> bool {
    &&& p.path == path
    &&& p.game is Some && p.game->0@ == "eql"@
    &&& !p.public_stream
    &&& through_stem(path@, text::opt_view(p.player), |s: Option<Seq<char>>| player_in(s))
    &&& through_stem(path@, text::opt_view(p.server), |s: Option<Seq<char>>| server_in(s))
    &&& exists|file: Option<Seq<char>>| #[trigger]
        is_file_name(path@, file) && named_after(
            p.name@,
            text::opt_view(p.player),
            text::opt_view(p.server),
            file,
        )
}

/// The name of a migrated log file's profile.
pub fn profile_name(
    player: &Option<String>,
    server: &Option<String>,
    file: &Option<String>,
) -> (r: String)
    ensures
        named_after(r@, text::opt_view(*player), text::opt_view(*server), text::opt_view(*file)),
{
    match (player, server) {
        (Some(p), Some(s)) => {
            let mut name = p.clone();
            name.append("  (");
            name.append(s.as_str());
            name.append(")");
            name
        },
        _ => match file {
            Some(f) => f.clone(),
            None => "Log Profile".to_owned(),
        },
    }
}

// ── Laws ────────────────────────────────────────────────────────────────────

/// After its migration a legacy log file is the one that is watched, whenever
/// the files were written.
pub proof fn migrated_log_is_watched<F>(
    before: Config<F>,
    after: Config<F>,
    times: Seq<Option<i128>>,
    active: Option<usize>,
)
    requires
        before.log_profiles@.len() == 0,
        before.log_path is Some,
        after.log_profiles@.len() == 1,
        is_migrated(
            before.log_path->0,
            LogProfile { public_stream: false, ..after.log_profiles@[0] },
        ),
        after.log_watch_mode matches LogWatchMode::Pinned(name) && name@
            == after.log_profiles@[0].name@,
        is_active(after.log_profiles@, after.log_watch_mode, times, active),
    ensures
        active == Some(0usize),
        after.log_profiles@[0].path == before.log_path->0,
{
}

/// Fresh settings are those of an empty file in every field but one: nothing is
/// pushed to a server.
pub proof fn fresh_is_an_empty_file_without_push<F>(
    fresh: Config<F>,
    empty: Config<F>,
    hold: F,
    merged_hold: F,
    notice_hold: F,
)
    requires
        fresh.has_defaults(hold, merged_hold, notice_hold, false),
        empty.has_defaults(hold, merged_hold, notice_hold, true),
    ensures
        !fresh.remote_logging_enabled && empty.remote_logging_enabled,
        fresh.log_profiles@ == empty.log_profiles@,
        fresh.sound_package@ == empty.sound_package@,
        fresh.overlay_font@ == empty.overlay_font@,
        fresh.tts_voice@ == empty.tts_voice@,
        fresh == (Config {
            remote_logging_enabled: false,
            log_profiles: fresh.log_profiles,
            sound_package: fresh.sound_package,
            overlay_font: fresh.overlay_font,
            tts_voice: fresh.tts_voice,
            ..empty
        }),
{
    assert(fresh.log_profiles@ =~= empty.log_profiles@);
    assert(fresh.overlay_font@ =~= empty.overlay_font@);
}

/// A path without backslash, colon and share whose last segment names a file has
/// one name on every system: that segment.
pub proof fn plain_paths_have_one_name(path: Seq<char>)
    requires
        !text::has_char(path, '\\'),
        !text::has_char(path, ':'),
        !begins_as_share(path),
        ({
            let last = text::pieces(path, '/').last();
            last.len() > 0 && last != seq!['.'] && last != seq!['.', '.']
        }),
    ensures
        has_one_name(path),
        unix_file_name(path) == Some(text::pieces(path, '/').last()),
{
    assert(without_drive(path) =~= path);
    text::pieces_nonempty(path, '/');
}

/// Whatever the profile's path, a public stream is shared under a server and a
/// player that the profile goes by, both read from one name of its file; it never
/// falls back to the private address.
pub proof fn public_urls_are_made_of_effective_names<F>(c: Config<F>, i: int, r: Option<Seq<char>>)
    requires
        0 <= i < c.log_profiles@.len(),
        c.is_public_url(i, r),
    ensures
        ({
            let p = c.log_profiles@[i];
            exists|server: Seq<char>, player: Seq<char>|
                {
                    &&& is_effective(
                        text::opt_view(p.server),
                        p.path@,
                        server,
                        |s: Option<Seq<char>>| server_in(s),
                    )
                    &&& is_effective(
                        text::opt_view(p.player),
                        p.path@,
                        player,
                        |s: Option<Seq<char>>| player_in(s),
                    )
                    &&& r == #[trigger] public_url_of(
                        c.server_url->0@,
                        text::opt_view(p.game),
                        server,
                        player,
                    )
                }
        }),
{
    let p = c.log_profiles@[i];
    let base = c.server_url->0@;
    let game = text::opt_view(p.game);
    let of_server = |s: Option<Seq<char>>| server_in(s);
    let of_player = |s: Option<Seq<char>>| player_in(s);
    let stem = choose|stem: Option<Seq<char>>| #[trigger]
        is_stem(p.path@, stem) && r == public_url_of(
            base,
            game,
            effective_name(text::opt_view(p.server), server_in(stem)),
            effective_name(text::opt_view(p.player), player_in(stem)),
        );
    let server = effective_name(text::opt_view(p.server), server_in(stem));
    let player = effective_name(text::opt_view(p.player), player_in(stem));
    assert(through_stem(p.path@, server_in(stem), of_server));
    assert(through_stem(p.path@, player_in(stem), of_player));
    assert(is_effective(text::opt_view(p.server), p.path@, server, of_server));
    assert(is_effective(text::opt_view(p.player), p.path@, player, of_player));
    assert(r == public_url_of(base, game, server, player));
}

/// A public stream is shared under the names that its profile goes by, wherever
/// the profile's path has one name on every system; it never falls back to the
/// private address.
pub proof fn public_urls_use_the_effective_names<F>(
    c: Config<F>,
    i: int,
    server: Seq<char>,
    player: Seq<char>,
    r: Option<Seq<char>>,
)
    requires
        0 <= i < c.log_profiles@.len(),
        has_one_name(c.log_profiles@[i].path@),
        is_effective(
            text::opt_view(c.log_profiles@[i].server),
            c.log_profiles@[i].path@,
            server,
            |s: Option<Seq<char>>| server_in(s),
        ),
        is_effective(
            text::opt_view(c.log_profiles@[i].player),
            c.log_profiles@[i].path@,
            player,
            |s: Option<Seq<char>>| player_in(s),
        ),
        c.is_public_url(i, r),
    ensures
        r == public_url_of(
            c.server_url->0@,
            text::opt_view(c.log_profiles@[i].game),
            server,
            player,
        ),
{
}

/// A pinned profile is watched whenever the files were written.
pub proof fn pinned_ignores_activity(
    profiles: Seq<LogProfile>,
    name: String,
    times_a: Seq<Option<i128>>,
    times_b: Seq<Option<i128>>,
    a: Option<usize>,
    b: Option<usize>,
)
    requires
        is_active(profiles, LogWatchMode::Pinned(name), times_a, a),
        is_active(profiles, LogWatchMode::Pinned(name), times_b, b),
    ensures
        a == b,
{
    if profiles.len() > 0 {
        let i = a->0 as int;
        let j = b->0 as int;
        if is_first_named(profiles, name@, i) && is_first_named(profiles, name@, j) {
            if i < j {
                assert(profiles[i].name@ != name@);
            } else if j < i {
                assert(profiles[j].name@ != name@);
            }
        } else if is_first_named(profiles, name@, i) {
            assert(profiles[i].name@ != name@);
        } else if is_first_named(profiles, name@, j) {
            assert(profiles[j].name@ != name@);
        }
    }
}

/// Whoever has credentials and a log to push has an address to push to, and
/// that address ends in the stream's identifier.
pub proof fn ready_means_addressed<F>(c: Config<F>)
    requires
        c.server_url is Some,
        c.stream_id is Some,
    ensures
        c.spec_ingest_url() is Some,
        ({
            let url = c.spec_ingest_url()->0;
            let id = c.stream_id->0@;
            url.len() >= id.len() && url.skip(url.len() - id.len()) == id
        }),
{
    let id = c.stream_id->0@;
    let url = c.spec_ingest_url()->0;
    assert(url.skip(url.len() - id.len()) =~= id);
}

} // verus!
