//! What the fields of the settings window mean: what they show at first, and
//! what is stored of them.
use vstd::prelude::*;

use crate::config;
use crate::config::{Config, OverlayWindowConfig, TtsAudioMode, TtsSpeed};
use crate::overlay::alert;
use crate::overlay::alert::DEFAULT_PACKAGE;
use crate::settings::register::{Registration, NOT_REGISTERED};
use crate::text;

verus! {

/// The fonts that the window offers.
pub const FONT_NAMES: [&'static str; 7] = [
    "Segoe UI",
    "Arial",
    "Consolas",
    "Courier New",
    "Tahoma",
    "Verdana",
    "Times New Roman",
];

/// The games that the window offers.
pub const GAMES: [&'static str; 1] = ["Everquest Legends"];

/// The ids of those games.
pub const GAME_IDS: [&'static str; 1] = ["eql"];

/// The servers that the window offers.
pub const SERVERS: [&'static str; 1] = ["Test"];

pub const DEFAULT_GAME: &'static str = "eql";

pub const DEFAULT_FONT: &'static str = "Segoe UI";

pub const PLAYER_INVALID: &'static str = "Player name may only contain letters A–Z.";

/// Where a name first stands in a list.
pub open spec fn name_position(names: Seq<&'static str>, name: Seq<char>) -> Option<int>
    decreases names.len(),
{
    if names.len() == 0 {
        None
    } else if names[0]@ == name {
        Some(0)
    } else {
        match name_position(names.skip(1), name) {
            Some(i) => Some(i + 1),
            None => None,
        }
    }
}

/// Where a name first stands in a list.
pub fn position_of(names: &[&'static str], name: &str) -> (r: Option<usize>)
    ensures
        match r {
            Some(i) => name_position(names@, name@) == Some(i as int) && i < names@.len(),
            None => name_position(names@, name@) is None,
        },
{
    let n: usize = names.len();
    let mut i: usize = 0;
    proof {
        assert(names@.skip(0) =~= names@);
    }
    while i < n
        invariant
            n == names@.len(),
            i <= n,
            name_position(names@, name@) == match name_position(names@.skip(i as int), name@) {
                Some(j) => Some(j + i),
                None => None,
            },
        decreases n - i,
    {
        proof {
            assert(names@.skip(i as int)[0] == names@[i as int]);
            assert(names@.skip(i as int).skip(1) =~= names@.skip(i + 1));
        }
        if text::same(names[i], name) {
            return Some(i);
        }
        i += 1;
    }
    None
}

/// Which entry of a list is selected for a name: the first where it is not
/// offered.
pub fn selection_for(names: &[&'static str], name: &str) -> (r: usize)
    ensures
        r == match name_position(names@, name@) {
            Some(i) => i,
            None => 0,
        },
{
    match position_of(names, name) {
        Some(i) => i,
        None => 0,
    }
}

/// The id of the game that the window shows under a name.
pub fn label_to_game_id(label: &str) -> (r: &'static str)
    ensures
        r@ == DEFAULT_GAME@,
{
    proof {
        assert(GAME_IDS@[0]@ == DEFAULT_GAME@);
        assert(GAMES@.len() == 1);
    }
    match position_of(&GAMES, label) {
        Some(i) => GAME_IDS[i],
        None => DEFAULT_GAME,
    }
}

/// The id of a stored game: stored names become ids, and a missing one the
/// default.
pub open spec fn migrated_game(s: Seq<char>) -> Seq<char> {
    if s == GAMES@[0]@ || s.len() == 0 {
        DEFAULT_GAME@
    } else {
        s
    }
}

/// The id of a stored game.
pub fn migrate_game(s: String) -> (r: String)
    ensures
        r@ == migrated_game(s@),
{
    proof {
        assert(GAMES@.len() == 1);
        assert(GAMES@.skip(1) =~= Seq::<&'static str>::empty());
        assert(name_position(GAMES@.skip(1), s@) is None);
    }
    if position_of(&GAMES, s.as_str()).is_some() {
        label_to_game_id(s.as_str()).to_owned()
    } else if s.as_str().is_empty() {
        DEFAULT_GAME.to_owned()
    } else {
        s
    }
}

/// Who plays where.
pub struct Identity {
    pub player: Option<String>,
    pub server: Option<String>,
    pub game: Option<String>,
}

/// What the fields of the logging tab show at first.
pub struct LoggingDraft {
    pub log_path: String,
    pub server_url: String,
    pub player: String,
    pub server: String,
    pub game: String,
    pub password: String,
    pub public: bool,
    pub remote_logging: bool,
}

/// The server that is shown: the one that is set, else the one in the log's
/// name, else the first that is offered.
pub open spec fn shown_server(set: Option<Seq<char>>, in_log: Option<Seq<char>>) -> Seq<char> {
    match set {
        Some(s) => s,
        None => match in_log {
            Some(s) => s,
            None => SERVERS@[0]@,
        },
    }
}

fn text_or_empty(s: &Option<String>) -> (r: String)
    ensures
        r@ == config::name_or_empty(text::opt_view(*s)),
{
    match s {
        Some(t) => t.clone(),
        None => {
            let none: String = String::new();
            proof {
                assert(none@ =~= Seq::<char>::empty());
            }
            none
        },
    }
}

/// What the fields of the logging tab show at first. The player is the one that
/// counts, the server in the log's name is given where it was found.
pub fn logging_draft<F>(
    cfg: &Config<F>,
    who: &Identity,
    player: String,
    server_in_log: Option<String>,
) -> (r: LoggingDraft)
    ensures
        r.log_path@ == config::name_or_empty(text::opt_view(cfg.log_path)),
        r.server_url@ == config::name_or_empty(text::opt_view(cfg.server_url)),
        r.player@ == player@,
        r.server@ == shown_server(text::opt_view(who.server), text::opt_view(server_in_log)),
        r.game@ == migrated_game(config::name_or_empty(text::opt_view(who.game))),
        r.password@ == config::name_or_empty(text::opt_view(cfg.stream_password)),
        r.public == cfg.public_stream,
        r.remote_logging == cfg.remote_logging_enabled,
{
    let server: String = match &who.server {
        Some(s) => s.clone(),
        None => match server_in_log {
            Some(s) => s,
            None => SERVERS[0].to_owned(),
        },
    };
    LoggingDraft {
        log_path: text_or_empty(&cfg.log_path),
        server_url: text_or_empty(&cfg.server_url),
        player,
        server,
        game: migrate_game(text_or_empty(&who.game)),
        password: text_or_empty(&cfg.stream_password),
        public: cfg.public_stream,
        remote_logging: cfg.remote_logging_enabled,
    }
}

/// What the window knows of the registration at first.
pub fn first_registration<F>(cfg: &Config<F>, who: &Identity) -> (r: Registration)
    ensures
        r.is_registered == (cfg.stream_id is Some && cfg.stream_token is Some
            && cfg.view_token is Some),
        r.stream_id_text@ == match text::opt_view(cfg.stream_id) {
            Some(id) => id,
            None => NOT_REGISTERED@,
        },
        r.player_user_set == who.player is Some,
        r.server_user_set == who.server is Some,
{
    Registration {
        is_registered: cfg.is_registered(),
        stream_id_text: match &cfg.stream_id {
            Some(id) => id.clone(),
            None => NOT_REGISTERED.to_owned(),
        },
        player_user_set: who.player.is_some(),
        server_user_set: who.server.is_some(),
    }
}

// ── Saving ──────────────────────────────────────────────────────────────────

/// What the controls hold when the settings are saved. Numbers are as they were
/// typed; lists give the position that is selected.
pub struct FormInput<F> {
    pub player: String,
    pub log_path: String,
    pub server_url: String,
    pub password: String,
    pub game_label: String,
    pub server: String,
    pub public: bool,
    pub remote_logging: bool,
    pub sound_enabled: bool,
    pub sound_volume: u8,
    pub sound_package: String,
    pub meter_enabled: bool,
    pub meter_locked: bool,
    pub meter_max_rows: String,
    pub meter_idle_secs: String,
    pub meter_font_size: String,
    pub meter_x: String,
    pub meter_y: String,
    pub font: usize,
    pub start_font_size: String,
    pub max_font_size: String,
    pub fly_ms: String,
    pub hold_secs: F,
    pub alpha: String,
    pub overlay_enabled: bool,
    pub overlay_locked: bool,
    pub overlay_x: String,
    pub overlay_y: String,
    pub history_font_size: String,
    pub history_idle_secs: String,
    pub history_max_entries: String,
    pub history_width: String,
    pub history_enabled: bool,
    pub history_locked: bool,
    pub history_x: String,
    pub history_y: String,
    pub tts_enabled: bool,
    pub tts_speed: usize,
    pub tts_smart: bool,
    pub tts_queue: bool,
    pub tts_read_emergency: bool,
    pub tts_read_operational: bool,
    pub tts_read_ambient: bool,
    pub tts_voice: usize,
    /// The voices that were offered, by their ids.
    pub voices: Vec<String>,
}

/// A number within bounds.
pub open spec fn bounded(n: int, lo: int, hi: int) -> int {
    if n < lo {
        lo
    } else if n > hi {
        hi
    } else {
        n
    }
}

/// What a field for a count means: the number that was typed, or the default
/// where it is none, within bounds.
pub open spec fn count_of(s: Seq<char>, max: nat, default: int, lo: int, hi: int) -> int {
    bounded(
        match text::unsigned_value(s, max) {
            Some(n) => n as int,
            None => default,
        },
        lo,
        hi,
    )
}

fn read_count(s: &str, max: u64, default: u64, lo: u64, hi: u64) -> (r: u64)
    requires
        lo <= hi,
    ensures
        r == count_of(s@, max as nat, default as int, lo as int, hi as int),
        lo <= r <= hi,
{
    let n: u64 = match text::parse_unsigned(s, max) {
        Some(n) => n,
        None => default,
    };
    if n < lo {
        lo
    } else if n > hi {
        hi
    } else {
        n
    }
}

/// What a field for a coordinate means: the number that was typed, or none.
pub open spec fn coordinate_of(s: Seq<char>) -> int {
    match text::signed_value(s) {
        Some(n) => n,
        None => -1,
    }
}

fn read_coordinate(s: &str) -> (r: i32)
    ensures
        r == coordinate_of(s@),
{
    match text::parse_i32(s) {
        Some(n) => {
            proof {
                signed_fits(s@);
            }
            n
        },
        None => -1,
    }
}

proof fn signed_fits(s: Seq<char>)
    ensures
        text::signed_value(s) matches Some(n) ==> i32::MIN <= n <= i32::MAX,
{
}

fn read_width(s: &str) -> (r: i32)
    ensures
        r == bounded(
            match text::signed_value(s@) {
                Some(n) => n,
                None => 320,
            },
            160,
            i32::MAX as int,
        ),
{
    proof {
        signed_fits(s@);
    }
    let n: i32 = match text::parse_i32(s) {
        Some(n) => n,
        None => 320,
    };
    if n < 160 {
        160
    } else {
        n
    }
}

/// The largest number of each width, as a text is read.
pub open spec fn max_count() -> nat {
    usize::MAX as nat
}

/// A text, or nothing where it is empty.
pub open spec fn nonempty(s: Seq<char>) -> Option<Seq<char>> {
    if s.len() == 0 {
        None
    } else {
        Some(s)
    }
}

fn nonempty_text(s: String) -> (r: Option<String>)
    ensures
        text::opt_view(r) == nonempty(s@),
{
    if s.as_str().is_empty() {
        None
    } else {
        Some(s)
    }
}

/// The speed at a position; the fastest where there is none.
pub open spec fn speed_at(i: usize) -> TtsSpeed {
    if i == 0 {
        TtsSpeed::Normal
    } else if i == 1 {
        TtsSpeed::Fast
    } else if i == 2 {
        TtsSpeed::Faster
    } else {
        TtsSpeed::Fastest
    }
}

/// The speed at a position.
pub fn speed_of_index(i: usize) -> (r: TtsSpeed)
    ensures
        r == speed_at(i),
{
    if i == 0 {
        TtsSpeed::Normal
    } else if i == 1 {
        TtsSpeed::Fast
    } else if i == 2 {
        TtsSpeed::Faster
    } else {
        TtsSpeed::Fastest
    }
}

/// The speeds in the order of the list.
pub const SPEED_NAMES: [&'static str; 4] = [
    "Normal (1x)",
    "Fast (1.2x)",
    "Faster (1.5x)",
    "Fastest (2x)",
];

/// Where a speed stands.
pub open spec fn speed_position(s: TtsSpeed) -> usize {
    match s {
        TtsSpeed::Normal => 0,
        TtsSpeed::Fast => 1,
        TtsSpeed::Faster => 2,
        TtsSpeed::Fastest => 3,
    }
}

/// Where a speed stands.
pub fn speed_index(s: TtsSpeed) -> (r: usize)
    ensures
        r == speed_position(s),
        r < SPEED_NAMES@.len(),
{
    match s {
        TtsSpeed::Normal => 0,
        TtsSpeed::Fast => 1,
        TtsSpeed::Faster => 2,
        TtsSpeed::Fastest => 3,
    }
}

/// The mode that radio buttons show.
pub open spec fn mode_shown(smart: bool, queue: bool) -> TtsAudioMode {
    if smart {
        TtsAudioMode::SmartPriority
    } else if queue {
        TtsAudioMode::QueueAll
    } else {
        TtsAudioMode::InterruptConstantly
    }
}

fn mode_of_radio(smart: bool, queue: bool) -> (r: TtsAudioMode)
    ensures
        r == mode_shown(smart, queue),
{
    if smart {
        TtsAudioMode::SmartPriority
    } else if queue {
        TtsAudioMode::QueueAll
    } else {
        TtsAudioMode::InterruptConstantly
    }
}

/// Whether a name is made of letters alone.
pub open spec fn is_letters(s: Seq<char>) -> bool {
    forall|i: int|
        0 <= i < s.len() ==> ('a' <= #[trigger] s[i] <= 'z' || 'A' <= s[i] <= 'Z')
}

/// Whether a name is made of the letters A–Z alone, in either case.
pub fn letters_only(s: &str) -> (r: bool)
    ensures
        r == is_letters(s@),
{
    let v = text::chars_of(s);
    let mut i: usize = 0;
    while i < v.len()
        invariant
            v@ == s@,
            i <= v@.len(),
            forall|j: int|
                0 <= j < i ==> ('a' <= #[trigger] s@[j] <= 'z' || 'A' <= s@[j] <= 'Z'),
        decreases v@.len() - i,
    {
        let c: char = v[i];
        if !((c >= 'a' && c <= 'z') || (c >= 'A' && c <= 'Z')) {
            proof {
                assert(s@[i as int] == c);
            }
            return false;
        }
        i += 1;
    }
    true
}

/// What a server has to be told where a stream's visibility changed.
pub struct PatchCreds {
    pub url: String,
    pub stream_id: String,
    pub stream_token: String,
    pub public: bool,
}

/// What saving comes to.
pub struct Saved<F> {
    pub cfg: Config<F>,
    pub who: Identity,
    /// The server has to be told of this.
    pub patch: Option<PatchCreds>,
}

/// The font at a position.
pub open spec fn font_at(i: usize) -> Seq<char> {
    if i < FONT_NAMES@.len() {
        FONT_NAMES@[i as int]@
    } else {
        DEFAULT_FONT@
    }
}

fn font_of_index(i: usize) -> (r: String)
    ensures
        r@ == font_at(i),
{
    let names: &[&'static str] = &FONT_NAMES;
    if i < names.len() {
        names[i].to_owned()
    } else {
        DEFAULT_FONT.to_owned()
    }
}

/// The voice at a position; none where there is none.
pub open spec fn voice_at(voices: Seq<String>, i: usize) -> Seq<char> {
    if i < voices.len() {
        voices[i as int]@
    } else {
        Seq::empty()
    }
}

fn voice_of_index(voices: &Vec<String>, i: usize) -> (r: String)
    ensures
        r@ == voice_at(voices@, i),
{
    if i < voices.len() {
        voices[i].clone()
    } else {
        let none: String = String::new();
        proof {
            assert(none@ =~= Seq::<char>::empty());
        }
        none
    }
}

/// Whether the settings of the logging tab and of the sounds are stored.
pub open spec fn general_stored<F>(i: FormInput<F>, c: Config<F>) -> bool {
    &&& text::opt_view(c.log_path) == nonempty(i.log_path@)
    &&& text::opt_view(c.server_url) == nonempty(i.server_url@)
    &&& text::opt_view(c.stream_password) == nonempty(i.password@)
    &&& c.public_stream == i.public
    &&& c.remote_logging_enabled == i.remote_logging
    &&& c.sound_enabled == i.sound_enabled
    &&& c.sound_volume == i.sound_volume
    &&& c.sound_package@ == alert::package_of(i.sound_package@)
}

/// Whether the settings of the meter are stored, its rows between one and
/// thirty, its font between eight and thirty-two points.
pub open spec fn meter_stored<F>(i: FormInput<F>, c: Config<F>) -> bool {
    &&& c.overlay_meter.enabled == i.meter_enabled
    &&& c.overlay_meter.locked == i.meter_locked
    &&& c.overlay_meter.x == coordinate_of(i.meter_x@)
    &&& c.overlay_meter.y == coordinate_of(i.meter_y@)
    &&& c.meter_max_rows == count_of(i.meter_max_rows@, max_count(), 12, 1, 30)
    &&& c.meter_idle_secs == count_of(
        i.meter_idle_secs@,
        u32::MAX as nat,
        10,
        0,
        u32::MAX as int,
    )
    &&& c.meter_font_size == count_of(i.meter_font_size@, u32::MAX as nat, 11, 8, 32)
}

/// Whether the settings of the alert overlay are stored, each within bounds.
pub open spec fn alert_stored<F>(i: FormInput<F>, c: Config<F>) -> bool {
    &&& c.overlay_font@ == font_at(i.font)
    &&& c.overlay_start_font_size == count_of(i.start_font_size@, u32::MAX as nat, 10, 6, 72)
    &&& c.overlay_max_font_size == count_of(i.max_font_size@, u32::MAX as nat, 60, 6, 300)
    &&& c.overlay_fly_ms == count_of(i.fly_ms@, u32::MAX as nat, 240, 16, u32::MAX as int)
    &&& c.overlay_hold_secs == i.hold_secs
    &&& c.overlay_alpha == count_of(i.alpha@, u32::MAX as nat, 200, 0, 255)
    &&& c.overlay_alert.enabled == i.overlay_enabled
    &&& c.overlay_alert.locked == i.overlay_locked
    &&& c.overlay_alert.x == coordinate_of(i.overlay_x@)
    &&& c.overlay_alert.y == coordinate_of(i.overlay_y@)
}

/// Whether the settings of the history overlay are stored, each within bounds.
pub open spec fn history_stored<F>(i: FormInput<F>, c: Config<F>) -> bool {
    &&& c.overlay_history_font_size == count_of(i.history_font_size@, u32::MAX as nat, 12, 8, 72)
    &&& c.overlay_history_idle_secs == count_of(
        i.history_idle_secs@,
        u32::MAX as nat,
        8,
        0,
        u32::MAX as int,
    )
    &&& c.overlay_history_max_entries == count_of(i.history_max_entries@, max_count(), 8, 1, 50)
    &&& c.overlay_history_width == bounded(
        match text::signed_value(i.history_width@) {
            Some(n) => n,
            None => 320,
        },
        160,
        i32::MAX as int,
    )
    &&& c.overlay_history.enabled == i.history_enabled
    &&& c.overlay_history.locked == i.history_locked
    &&& c.overlay_history.x == coordinate_of(i.history_x@)
    &&& c.overlay_history.y == coordinate_of(i.history_y@)
}

/// Whether the settings of the voice are stored.
pub open spec fn voice_stored<F>(i: FormInput<F>, c: Config<F>) -> bool {
    &&& c.tts_enabled == i.tts_enabled
    &&& c.tts_speed == speed_at(i.tts_speed)
    &&& c.tts_audio_mode == mode_shown(i.tts_smart, i.tts_queue)
    &&& c.tts_read_emergency == i.tts_read_emergency
    &&& c.tts_read_operational == i.tts_read_operational
    &&& c.tts_read_ambient == i.tts_read_ambient
    &&& c.tts_voice@ == voice_at(i.voices@, i.tts_voice)
}

/// Whether everything that the window does not show is kept.
pub open spec fn rest_kept<F>(before: Config<F>, c: Config<F>) -> bool {
    c == (Config {
        log_path: c.log_path,
        server_url: c.server_url,
        stream_password: c.stream_password,
        public_stream: c.public_stream,
        remote_logging_enabled: c.remote_logging_enabled,
        sound_enabled: c.sound_enabled,
        sound_volume: c.sound_volume,
        sound_package: c.sound_package,
        overlay_meter: c.overlay_meter,
        meter_max_rows: c.meter_max_rows,
        meter_idle_secs: c.meter_idle_secs,
        meter_font_size: c.meter_font_size,
        overlay_font: c.overlay_font,
        overlay_start_font_size: c.overlay_start_font_size,
        overlay_max_font_size: c.overlay_max_font_size,
        overlay_fly_ms: c.overlay_fly_ms,
        overlay_hold_secs: c.overlay_hold_secs,
        overlay_alpha: c.overlay_alpha,
        overlay_alert: c.overlay_alert,
        overlay_history_font_size: c.overlay_history_font_size,
        overlay_history_idle_secs: c.overlay_history_idle_secs,
        overlay_history_max_entries: c.overlay_history_max_entries,
        overlay_history_width: c.overlay_history_width,
        overlay_history: c.overlay_history,
        tts_enabled: c.tts_enabled,
        tts_speed: c.tts_speed,
        tts_audio_mode: c.tts_audio_mode,
        tts_read_emergency: c.tts_read_emergency,
        tts_read_operational: c.tts_read_operational,
        tts_read_ambient: c.tts_read_ambient,
        tts_voice: c.tts_voice,
        ..before
    })
}

/// Whether the server has to be told of a changed visibility: the stream is
/// registered with a server that is known.
pub open spec fn must_patch<F>(cfg: Config<F>, public: bool) -> bool {
    &&& cfg.stream_id is Some
    &&& cfg.stream_token is Some
    &&& cfg.view_token is Some
    &&& cfg.public_stream != public
    &&& cfg.server_url is Some
}

fn patch_of<F>(cfg: &Config<F>, public: bool) -> (r: Option<PatchCreds>)
    ensures
        match r {
            Some(p) => {
                &&& must_patch(*cfg, public)
                &&& Some(p.url@) == text::opt_view(cfg.server_url)
                &&& Some(p.stream_id@) == text::opt_view(cfg.stream_id)
                &&& Some(p.stream_token@) == text::opt_view(cfg.stream_token)
                &&& p.public == public
            },
            None => !must_patch(*cfg, public),
        },
{
    if !(cfg.is_registered() && cfg.public_stream != public) {
        return None;
    }
    match (&cfg.server_url, &cfg.stream_id, &cfg.stream_token) {
        (Some(url), Some(id), Some(token)) => Some(
            PatchCreds {
                url: url.clone(),
                stream_id: id.clone(),
                stream_token: token.clone(),
                public,
            },
        ),
        _ => None,
    }
}

/// Saves what the controls hold; nothing where the player's name holds anything
/// but letters.
#[verifier::rlimit(40)]
pub fn save<F>(cfg: Config<F>, i: FormInput<F>) -> (r: Option<Saved<F>>)
    ensures
        match r {
            Some(s) => {
                &&& is_letters(i.player@)
                &&& general_stored(i, s.cfg)
                &&& meter_stored(i, s.cfg)
                &&& alert_stored(i, s.cfg)
                &&& history_stored(i, s.cfg)
                &&& voice_stored(i, s.cfg)
                &&& rest_kept(cfg, s.cfg)
                &&& text::opt_view(s.who.player) == nonempty(i.player@)
                &&& text::opt_view(s.who.server) == Some(i.server@)
                &&& text::opt_view(s.who.game) == Some(DEFAULT_GAME@)
                &&& match s.patch {
                    Some(p) => {
                        &&& must_patch(cfg, i.public)
                        &&& Some(p.url@) == text::opt_view(cfg.server_url)
                        &&& Some(p.stream_id@) == text::opt_view(cfg.stream_id)
                        &&& Some(p.stream_token@) == text::opt_view(cfg.stream_token)
                        &&& p.public == i.public
                    },
                    None => !must_patch(cfg, i.public),
                }
            },
            None => !is_letters(i.player@),
        },
{
    if !letters_only(i.player.as_str()) {
        return None;
    }
    let patch = patch_of(&cfg, i.public);
    let sound_package: String = if i.sound_package.as_str().is_empty() {
        DEFAULT_PACKAGE.to_owned()
    } else {
        i.sound_package
    };
    let umax: u64 = usize::MAX as u64;
    let wmax: u64 = u32::MAX as u64;
    let meter = OverlayWindowConfig {
        enabled: i.meter_enabled,
        locked: i.meter_locked,
        x: read_coordinate(i.meter_x.as_str()),
        y: read_coordinate(i.meter_y.as_str()),
    };
    let alert_window = OverlayWindowConfig {
        enabled: i.overlay_enabled,
        locked: i.overlay_locked,
        x: read_coordinate(i.overlay_x.as_str()),
        y: read_coordinate(i.overlay_y.as_str()),
    };
    let history = OverlayWindowConfig {
        enabled: i.history_enabled,
        locked: i.history_locked,
        x: read_coordinate(i.history_x.as_str()),
        y: read_coordinate(i.history_y.as_str()),
    };
    let who = Identity {
        player: nonempty_text(i.player),
        server: Some(i.server),
        game: Some(label_to_game_id(i.game_label.as_str()).to_owned()),
    };
    let cfg2 = Config {
        log_path: nonempty_text(i.log_path),
        server_url: nonempty_text(i.server_url),
        stream_password: nonempty_text(i.password),
        public_stream: i.public,
        remote_logging_enabled: i.remote_logging,
        sound_enabled: i.sound_enabled,
        sound_volume: i.sound_volume,
        sound_package,
        overlay_meter: meter,
        meter_max_rows: read_count(i.meter_max_rows.as_str(), umax, 12, 1, 30) as usize,
        meter_idle_secs: read_count(i.meter_idle_secs.as_str(), wmax, 10, 0, wmax) as u32,
        meter_font_size: read_count(i.meter_font_size.as_str(), wmax, 11, 8, 32) as u32,
        overlay_font: font_of_index(i.font),
        overlay_start_font_size: read_count(i.start_font_size.as_str(), wmax, 10, 6, 72) as u32,
        overlay_max_font_size: read_count(i.max_font_size.as_str(), wmax, 60, 6, 300) as u32,
        overlay_fly_ms: read_count(i.fly_ms.as_str(), wmax, 240, 16, wmax) as u32,
        overlay_hold_secs: i.hold_secs,
        overlay_alpha: read_count(i.alpha.as_str(), wmax, 200, 0, 255) as u8,
        overlay_alert: alert_window,
        overlay_history_font_size: read_count(
            i.history_font_size.as_str(),
            wmax,
            12,
            8,
            72,
        ) as u32,
        overlay_history_idle_secs: read_count(
            i.history_idle_secs.as_str(),
            wmax,
            8,
            0,
            wmax,
        ) as u32,
        overlay_history_max_entries: read_count(
            i.history_max_entries.as_str(),
            umax,
            8,
            1,
            50,
        ) as usize,
        overlay_history_width: read_width(i.history_width.as_str()),
        overlay_history: history,
        tts_enabled: i.tts_enabled,
        tts_speed: speed_of_index(i.tts_speed),
        tts_audio_mode: mode_of_radio(i.tts_smart, i.tts_queue),
        tts_read_emergency: i.tts_read_emergency,
        tts_read_operational: i.tts_read_operational,
        tts_read_ambient: i.tts_read_ambient,
        tts_voice: voice_of_index(&i.voices, i.tts_voice),
        ..cfg
    };
    Some(Saved { cfg: cfg2, who, patch })
}

// ── Laws ────────────────────────────────────────────────────────────────────

/// Whatever was typed, what is stored is within its bounds.
pub proof fn saved_numbers_are_within_bounds<F>(i: FormInput<F>, c: Config<F>)
    requires
        meter_stored(i, c),
        alert_stored(i, c),
        history_stored(i, c),
    ensures
        1 <= c.meter_max_rows <= 30,
        8 <= c.meter_font_size <= 32,
        6 <= c.overlay_start_font_size <= 72,
        6 <= c.overlay_max_font_size <= 300,
        16 <= c.overlay_fly_ms,
        8 <= c.overlay_history_font_size <= 72,
        1 <= c.overlay_history_max_entries <= 50,
        160 <= c.overlay_history_width,
{
}

/// A number within bounds is stored as it was shown.
pub proof fn shown_counts_are_stored(n: nat, max: nat, default: int, lo: int, hi: int)
    requires
        lo <= n <= hi,
        n <= max,
    ensures
        count_of(text::decimal(n), max, default, lo, hi) == n,
{
    text::decimal_read_back(n, max);
}

/// The list of speeds gives back the speed that it showed.
pub proof fn speeds_come_back(s: TtsSpeed)
    ensures
        speed_at(speed_position(s)) == s,
{
}

} // verus!
