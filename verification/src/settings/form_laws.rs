//! What holds of the settings window: what it shows is what it stores.
use vstd::prelude::*;

use crate::config::Config;
use crate::config::TtsAudioMode;
use crate::settings::form::alert_stored;
use crate::settings::form::coordinate_of;
use crate::settings::form::count_of;
use crate::settings::form::general_stored;
use crate::settings::form::history_stored;
use crate::settings::form::meter_stored;
use crate::settings::form::migrated_game;
use crate::settings::form::must_patch;
use crate::settings::form::name_position;
use crate::settings::form::shown_counts_are_stored;
use crate::settings::form::shown_server;
use crate::settings::form::speed_position;
use crate::settings::form::voice_stored;
use crate::settings::form::FormInput;
use crate::settings::form::{GAMES, SERVERS};
use crate::settings::panels;
use crate::settings::panels::appearance_fields;
use crate::settings::panels::meter_fields;
use crate::settings::panels::voice_marks;
use crate::settings::panels::windows_fields;
use crate::settings::panels::windows_marks;
use crate::text;
use crate::text_laws;

verus! {

/// Saving the meter's settings as the window shows them changes none of them.
pub proof fn untouched_meter_settings_stay<F>(before: Config<F>, i: FormInput<F>, c: Config<F>)
    requires
        meter_fields(before).contains((152i32, i.meter_max_rows@)),
        meter_fields(before).contains((153i32, i.meter_idle_secs@)),
        meter_fields(before).contains((154i32, i.meter_font_size@)),
        1 <= before.meter_max_rows <= 30,
        8 <= before.meter_font_size <= 32,
        meter_stored(i, c),
    ensures
        c.meter_max_rows == before.meter_max_rows,
        c.meter_idle_secs == before.meter_idle_secs,
        c.meter_font_size == before.meter_font_size,
{
    shown_counts_are_stored(before.meter_max_rows as nat, usize::MAX as nat, 12, 1, 30);
    shown_counts_are_stored(
        before.meter_idle_secs as nat,
        u32::MAX as nat,
        10,
        0,
        u32::MAX as int,
    );
    shown_counts_are_stored(before.meter_font_size as nat, u32::MAX as nat, 11, 8, 32);
}

/// Saving the looks of the overlays as the window shows them changes none of
/// them.
pub proof fn untouched_looks_stay<F>(
    before: Config<F>,
    hold: Seq<char>,
    i: FormInput<F>,
    c: Config<F>,
)
    requires
        appearance_fields(before, hold).contains((211i32, i.start_font_size@)),
        appearance_fields(before, hold).contains((213i32, i.max_font_size@)),
        appearance_fields(before, hold).contains((214i32, i.fly_ms@)),
        appearance_fields(before, hold).contains((212i32, i.alpha@)),
        appearance_fields(before, hold).contains((223i32, i.history_font_size@)),
        appearance_fields(before, hold).contains((224i32, i.history_idle_secs@)),
        appearance_fields(before, hold).contains((225i32, i.history_max_entries@)),
        appearance_fields(before, hold).contains((226i32, i.history_width@)),
        6 <= before.overlay_start_font_size <= 72,
        6 <= before.overlay_max_font_size <= 300,
        16 <= before.overlay_fly_ms,
        8 <= before.overlay_history_font_size <= 72,
        1 <= before.overlay_history_max_entries <= 50,
        160 <= before.overlay_history_width,
        alert_stored(i, c),
        history_stored(i, c),
    ensures
        c.overlay_start_font_size == before.overlay_start_font_size,
        c.overlay_max_font_size == before.overlay_max_font_size,
        c.overlay_fly_ms == before.overlay_fly_ms,
        c.overlay_alpha == before.overlay_alpha,
        c.overlay_history_font_size == before.overlay_history_font_size,
        c.overlay_history_idle_secs == before.overlay_history_idle_secs,
        c.overlay_history_max_entries == before.overlay_history_max_entries,
        c.overlay_history_width == before.overlay_history_width,
{
    let top = u32::MAX as nat;
    shown_counts_are_stored(before.overlay_start_font_size as nat, top, 10, 6, 72);
    shown_counts_are_stored(before.overlay_max_font_size as nat, top, 60, 6, 300);
    shown_counts_are_stored(before.overlay_fly_ms as nat, top, 240, 16, u32::MAX as int);
    shown_counts_are_stored(before.overlay_alpha as nat, top, 200, 0, 255);
    shown_counts_are_stored(before.overlay_history_font_size as nat, top, 12, 8, 72);
    shown_counts_are_stored(before.overlay_history_idle_secs as nat, top, 8, 0, u32::MAX as int);
    shown_counts_are_stored(
        before.overlay_history_max_entries as nat,
        usize::MAX as nat,
        8,
        1,
        50,
    );
    text_laws::signed_numbers_read_back(before.overlay_history_width as int);
}

/// Saving the windows' positions as they are shown moves none of them.
pub proof fn untouched_windows_stay_in_place<F>(before: Config<F>, i: FormInput<F>, c: Config<F>)
    requires
        windows_fields(before).contains((216i32, i.overlay_x@)),
        windows_fields(before).contains((217i32, i.overlay_y@)),
        windows_fields(before).contains((227i32, i.history_x@)),
        windows_fields(before).contains((228i32, i.history_y@)),
        windows_fields(before).contains((156i32, i.meter_x@)),
        windows_fields(before).contains((157i32, i.meter_y@)),
        meter_stored(i, c),
        alert_stored(i, c),
        history_stored(i, c),
    ensures
        c.overlay_alert.x == before.overlay_alert.x,
        c.overlay_alert.y == before.overlay_alert.y,
        c.overlay_history.x == before.overlay_history.x,
        c.overlay_history.y == before.overlay_history.y,
        c.overlay_meter.x == before.overlay_meter.x,
        c.overlay_meter.y == before.overlay_meter.y,
{
    text_laws::signed_numbers_read_back(before.overlay_alert.x as int);
    text_laws::signed_numbers_read_back(before.overlay_alert.y as int);
    text_laws::signed_numbers_read_back(before.overlay_history.x as int);
    text_laws::signed_numbers_read_back(before.overlay_history.y as int);
    text_laws::signed_numbers_read_back(before.overlay_meter.x as int);
    text_laws::signed_numbers_read_back(before.overlay_meter.y as int);
}

proof fn in_either(a: Seq<i32>, b: Seq<i32>, x: i32)
    ensures
        (a + b).contains(x) <==> a.contains(x) || b.contains(x),
{
    let s = a + b;
    if a.contains(x) {
        let k = choose|k: int| 0 <= k < a.len() && a[k] == x;
        assert(s[k] == x);
    }
    if b.contains(x) {
        let k = choose|k: int| 0 <= k < b.len() && b[k] == x;
        assert(s[a.len() + k] == x);
    }
    if s.contains(x) {
        let k = choose|k: int| 0 <= k < s.len() && s[k] == x;
        if k < a.len() {
            assert(a[k] == x);
        } else {
            assert(b[k - a.len()] == x);
        }
    }
}

proof fn in_check(id: i32, on: bool, x: i32)
    ensures
        panels::if_checked(id, on).contains(x) <==> on && x == id,
{
    if on {
        assert(seq![id][0] == id);
    }
}

proof fn window_mark<F>(cfg: Config<F>, x: i32)
    ensures
        windows_marks(cfg).contains(x) <==> {
            ||| x == 215 && cfg.overlay_alert.enabled
            ||| x == 229 && cfg.overlay_alert.locked
            ||| x == 231 && cfg.overlay_history.enabled
            ||| x == 230 && cfg.overlay_history.locked
            ||| x == 150 && cfg.overlay_meter.enabled
            ||| x == 151 && cfg.overlay_meter.locked
        },
{
    let a = panels::if_checked(215, cfg.overlay_alert.enabled);
    let b = panels::if_checked(229, cfg.overlay_alert.locked);
    let c = panels::if_checked(231, cfg.overlay_history.enabled);
    let d = panels::if_checked(230, cfg.overlay_history.locked);
    let e = panels::if_checked(150, cfg.overlay_meter.enabled);
    let f = panels::if_checked(151, cfg.overlay_meter.locked);
    in_either(a, b, x);
    in_either(a + b, c, x);
    in_either(a + b + c, d, x);
    in_either(a + b + c + d, e, x);
    in_either(a + b + c + d + e, f, x);
    in_check(215, cfg.overlay_alert.enabled, x);
    in_check(229, cfg.overlay_alert.locked, x);
    in_check(231, cfg.overlay_history.enabled, x);
    in_check(230, cfg.overlay_history.locked, x);
    in_check(150, cfg.overlay_meter.enabled, x);
    in_check(151, cfg.overlay_meter.locked, x);
}

/// Saving the marks of the windows as they are shown switches none of them.
pub proof fn untouched_window_marks_stay<F>(before: Config<F>, i: FormInput<F>, c: Config<F>)
    requires
        i.overlay_enabled == windows_marks(before).contains(215),
        i.overlay_locked == windows_marks(before).contains(229),
        i.history_enabled == windows_marks(before).contains(231),
        i.history_locked == windows_marks(before).contains(230),
        i.meter_enabled == windows_marks(before).contains(150),
        i.meter_locked == windows_marks(before).contains(151),
        meter_stored(i, c),
        alert_stored(i, c),
        history_stored(i, c),
    ensures
        c.overlay_alert.enabled == before.overlay_alert.enabled,
        c.overlay_alert.locked == before.overlay_alert.locked,
        c.overlay_history.enabled == before.overlay_history.enabled,
        c.overlay_history.locked == before.overlay_history.locked,
        c.overlay_meter.enabled == before.overlay_meter.enabled,
        c.overlay_meter.locked == before.overlay_meter.locked,
{
    window_mark(before, 215);
    window_mark(before, 229);
    window_mark(before, 231);
    window_mark(before, 230);
    window_mark(before, 150);
    window_mark(before, 151);
}

/// Saving the voice's settings as the window shows them changes none of them.
pub proof fn untouched_voice_settings_stay<F>(before: Config<F>, i: FormInput<F>, c: Config<F>)
    requires
        i.tts_enabled == voice_marks(before).contains(600),
        i.tts_smart == voice_marks(before).contains(602),
        i.tts_queue == voice_marks(before).contains(603),
        i.tts_read_emergency == voice_marks(before).contains(605),
        i.tts_read_operational == voice_marks(before).contains(606),
        i.tts_read_ambient == voice_marks(before).contains(607),
        i.tts_speed == speed_position(before.tts_speed),
        voice_stored(i, c),
    ensures
        c.tts_enabled == before.tts_enabled,
        c.tts_audio_mode == before.tts_audio_mode,
        c.tts_read_emergency == before.tts_read_emergency,
        c.tts_read_operational == before.tts_read_operational,
        c.tts_read_ambient == before.tts_read_ambient,
        c.tts_speed == before.tts_speed,
{
    voice_mark(before, 600);
    voice_mark(before, 602);
    voice_mark(before, 603);
    voice_mark(before, 605);
    voice_mark(before, 606);
    voice_mark(before, 607);
}

proof fn voice_mark<F>(cfg: Config<F>, x: i32)
    ensures
        voice_marks(cfg).contains(x) <==> {
            ||| x == 600 && cfg.tts_enabled
            ||| x == 602 && cfg.tts_audio_mode == TtsAudioMode::SmartPriority
            ||| x == 603 && cfg.tts_audio_mode == TtsAudioMode::QueueAll
            ||| x == 604 && cfg.tts_audio_mode == TtsAudioMode::InterruptConstantly
            ||| x == 605 && cfg.tts_read_emergency
            ||| x == 606 && cfg.tts_read_operational
            ||| x == 607 && cfg.tts_read_ambient
        },
{
    let mode = match cfg.tts_audio_mode {
        TtsAudioMode::SmartPriority => 602i32,
        TtsAudioMode::QueueAll => 603i32,
        TtsAudioMode::InterruptConstantly => 604i32,
    };
    let a = panels::if_checked(600, cfg.tts_enabled);
    let m = seq![mode];
    let b = panels::if_checked(605, cfg.tts_read_emergency);
    let c = panels::if_checked(606, cfg.tts_read_operational);
    let d = panels::if_checked(607, cfg.tts_read_ambient);
    in_either(a, m, x);
    in_either(a + m, b, x);
    in_either(a + m + b, c, x);
    in_either(a + m + b + c, d, x);
    in_check(600, cfg.tts_enabled, x);
    in_check(605, cfg.tts_read_emergency, x);
    in_check(606, cfg.tts_read_operational, x);
    in_check(607, cfg.tts_read_ambient, x);
    assert(m[0] == mode);
}

/// An empty field clears its setting, and any other text is stored as it was
/// typed.
pub proof fn typed_texts_are_stored<F>(i: FormInput<F>, c: Config<F>)
    requires
        general_stored(i, c),
    ensures
        c.log_path is Some <==> i.log_path@.len() > 0,
        c.server_url is Some <==> i.server_url@.len() > 0,
        c.stream_password is Some <==> i.password@.len() > 0,
        c.log_path is Some ==> c.log_path->0@ == i.log_path@,
        c.server_url is Some ==> c.server_url->0@ == i.server_url@,
        c.stream_password is Some ==> c.stream_password->0@ == i.password@,
        i.sound_package@.len() > 0 ==> c.sound_package@ == i.sound_package@,
        i.sound_package@.len() == 0 ==> c.sound_package@ == "default"@,
{
}

/// A number that is typed is stored where it is within bounds, and else the
/// nearest bound; what is no number gives the default.
pub proof fn typed_counts_are_kept_within_bounds(n: nat, s: Seq<char>, k: int, default: int, lo: int, hi: int, max: nat)
    requires
        lo <= default <= hi,
        n <= max,
        0 < k < s.len(),
        !('0' <= s[k] <= '9'),
    ensures
        lo <= n <= hi ==> count_of(text::decimal(n), max, default, lo, hi) == n,
        n < lo ==> count_of(text::decimal(n), max, default, lo, hi) == lo,
        n > hi ==> count_of(text::decimal(n), max, default, lo, hi) == hi,
        count_of(s, max, default, lo, hi) == default,
        coordinate_of(s) == -1,
{
    text::decimal_read_back(n, max);
    let d = text::unsigned_digits(s);
    if s[0] == '+' {
        assert(d[k - 1] == s[k]);
    } else {
        assert(d[k] == s[k]);
    }
    assert(s.skip(1)[k - 1] == s[k]);
}

/// The server has to be told just where a registered stream changes its
/// visibility.
pub proof fn servers_are_told_of_changes<F>(cfg: Config<F>, public: bool)
    ensures
        must_patch(cfg, public) ==> cfg.public_stream != public,
        !must_patch(cfg, cfg.public_stream),
        cfg.server_url is None || cfg.stream_id is None || cfg.stream_token is None
            || cfg.view_token is None ==> !must_patch(cfg, public),
        cfg.server_url is Some && cfg.stream_id is Some && cfg.stream_token is Some
            && cfg.view_token is Some ==> must_patch(cfg, !cfg.public_stream),
{
}

/// The server that was set is shown before the one in the log's name, and that one
/// before the first that is offered.
pub proof fn set_servers_are_shown(set: Seq<char>, in_log: Option<Seq<char>>, log: Seq<char>)
    ensures
        shown_server(Some(set), in_log) == set,
        shown_server(None, Some(log)) == log,
        shown_server(None, None) == SERVERS@[0]@,
{
}

/// A name stands in a list where it first does.
pub proof fn names_stand_where_they_first_do(
    names: Seq<&'static str>,
    name: Seq<char>,
    i: int,
)
    requires
        0 <= i <= names.len(),
        forall|j: int| 0 <= j < i ==> (#[trigger] names[j])@ != name,
        i < names.len() ==> names[i]@ == name,
    ensures
        i < names.len() ==> name_position(names, name) == Some(i),
        i == names.len() ==> name_position(names, name) is None,
    decreases names.len(),
{
    if i > 0 {
        let rest = names.skip(1);
        assert(names[0]@ != name);
        assert forall|j: int| 0 <= j < i - 1 implies (#[trigger] rest[j])@ != name by {
            assert(rest[j] == names[j + 1]);
        }
        names_stand_where_they_first_do(rest, name, i - 1);
    }
}

/// A stored game is an id after it was migrated, and stays one; an id is kept.
pub proof fn migrated_games_stay(s: Seq<char>)
    ensures
        migrated_game(migrated_game(s)) == migrated_game(s),
        migrated_game(s).len() > 0,
        s.len() > 0 && s != GAMES@[0]@ ==> migrated_game(s) == s,
        migrated_game(Seq::empty()) == "eql"@,
        migrated_game(GAMES@[0]@) == "eql"@,
{
    reveal_strlit("eql");
}

/// A volume is shown as it is set, but never above a hundred.
pub proof fn volumes_are_percentages(volume: u8)
    ensures
        panels::volume_of(volume) <= 100,
        volume <= 100 ==> panels::volume_of(volume) == volume,
        volume > 100 ==> panels::volume_of(volume) == 100,
{
}

} // verus!
