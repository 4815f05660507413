use froklog::config::{Config, TtsAudioMode, TtsSpeed};
use froklog::settings::color::{
    colorref_to_hex, hex_to_colorref, swatch_color, DEFAULT_ICON_SWATCH_RGB,
};
use froklog::settings::command::{
    centre, change_at_once, command_of, editor_command_of, import_detail, import_status,
    position_fields, shown_panels, split_notice, start_icon_import, start_url_test, Command,
    EditorCommand, ExtractResult, LOG_MISSING, URL_MISSING, URL_TESTING,
};
use froklog::settings::form::{
    first_registration, label_to_game_id, letters_only, logging_draft, migrate_game, save,
    selection_for, speed_index, speed_of_index, FormInput, Identity, FONT_NAMES, SPEED_NAMES,
};
use froklog::settings::icons::{
    build_icon_items, checkerboard, icon_files, icon_paint, picture_file, row_colors, sort_texts,
    thumb_size, IconPaint,
};
use froklog::settings::layout::{lay_out, wide, Area, ControlKind, FieldText};
use froklog::settings::panels::{
    action_checks, action_editor, action_texts, appearance_panel, condition_editor, frame,
    general_panel, hint, icon_combo_height, label_editor, logging_panel, meter_panel, prompt,
    selected_voice, sound_list_extent, sound_rows, sounds_panel, trigger_editor, triggers_panel,
    voice_panel, windows_panel, TRIGGERS,
};
use froklog::settings::register::{
    health_endpoint, register_endpoint, register_result, stream_endpoint, url_test_result,
    url_test_text, RegisterReply, RegisterResult, RegisterStep, Registration, UrlTestResult,
    NOT_OURS, PASSWORD_WANTED,
};
use froklog::settings::sounds::{
    active_after_rename, current_package, delete_step, edited_label, exported, find_icon_index,
    icon_label, imported, keep_current, label_list, label_of_line, label_question,
    package_selection, rename_step, sound_at, sound_position, suggested_copy, typed_name,
    PackageStep, SoundLabel, SoundOption, SoundTask, NO_ACTIVE_DELETE, NO_DEFAULT_DELETE,
    NO_DEFAULT_RENAME,
};
use froklog::settings::triggers::{
    action_groups, action_kind, action_label, add_trigger, blank_action, blank_condition,
    condition_input, condition_label, delete_prompt, delete_selected, edited_action,
    edited_condition, edited_trigger, list_buttons, move_down, move_up, replace_selected,
    shown_action, toggle_selected, trigger_label, Action, ActionInput, Condition, ConditionLogic,
    MatchType, Treatment, TriggerDef, VarOp, VoicePriority, ACTION_KINDS, CONDITION_KINDS,
    LOGIC_NAMES, MATCH_NAMES, OP_NAMES, PRIORITY_NAMES, TREATMENT_NAMES,
};

fn s(t: &str) -> String {
    t.to_string()
}

fn cfg() -> Config<f32> {
    Config::fresh(2.5, 2.5, 2.5)
}

// ── Lists ───────────────────────────────────────────────────────────────────

#[test]
fn moves_undo_one_another() {
    let mut v = vec!['a', 'b', 'c'];
    assert_eq!(move_up(&mut v, 2), Some(1));
    assert_eq!(v, vec!['a', 'c', 'b']);
    assert_eq!(move_down(&mut v, 1), Some(2));
    assert_eq!(v, vec!['a', 'b', 'c']);
    assert_eq!(move_up(&mut v, 0), None);
    assert_eq!(move_down(&mut v, 2), None);
    assert_eq!(move_down(&mut v, -1), None);
    assert!(!delete_selected(&mut v, 3));
    assert!(delete_selected(&mut v, 1));
    assert_eq!(v, vec!['a', 'c']);
    assert!(replace_selected(&mut v, 0, Some('z')));
    assert!(!replace_selected(&mut v, 0, None));
    assert_eq!(v, vec!['z', 'c']);
}

#[test]
fn buttons_follow_the_selection() {
    let b = list_buttons(0, 2);
    assert!(b.on_entry && !b.up && b.down);
    let b = list_buttons(1, 2);
    assert!(b.on_entry && b.up && !b.down);
    let b = list_buttons(-1, 2);
    assert!(!b.on_entry && !b.up && !b.down);
}

#[test]
fn triggers_are_added_and_toggled() {
    let mut v: Vec<TriggerDef<f64>> = vec![];
    assert_eq!(add_trigger(&mut v), 0);
    assert_eq!(trigger_label(&v[0]), "[✓] New Trigger  (ALL 0 cond, 0 act)");
    assert!(toggle_selected(&mut v, 0));
    v[0].condition_logic = ConditionLogic::Any;
    v[0].conditions.push(blank_condition());
    assert_eq!(trigger_label(&v[0]), "[ ] New Trigger  (ANY 1 cond, 0 act)");
    assert!(!toggle_selected(&mut v, 1));
    assert_eq!(delete_prompt(&v, 0), Some(s("Delete trigger \"New Trigger\"?")));
    assert_eq!(delete_prompt(&v, 1), None);
}

// ── Labels ──────────────────────────────────────────────────────────────────

#[test]
fn conditions_have_labels() {
    let m = |match_type| Condition::Match {
        match_type,
        pattern: s("x"),
    };
    assert_eq!(condition_label(&m(MatchType::Exact)), "[match/exact]  x");
    assert_eq!(condition_label(&m(MatchType::Glob)), "[match/glob]  x");
    let v = |op| Condition::Var {
        var_name: s("n"),
        op,
        value: s("5"),
    };
    assert_eq!(condition_label(&v(VarOp::Isset)), "[var]  n  isset");
    assert_eq!(condition_label(&v(VarOp::Gte)), "[var]  n  >= 5");
    assert_eq!(condition_label(&v(VarOp::Matches)), "[var]  n  matches 5");
}

#[test]
fn actions_have_labels() {
    let overlay = |treatment, priority| Action::Overlay {
        icon: s("i"),
        color: s(""),
        message: s("msg"),
        message_color: s(""),
        border_color: s(""),
        delay: 0.0f64,
        treatment,
        priority,
    };
    assert_eq!(
        action_label(&overlay(Treatment::Plain, VoicePriority::Operational), &None),
        "[overlay/i]  msg"
    );
    assert_eq!(
        action_label(&overlay(Treatment::Glow, VoicePriority::Emergency), &Some(s("1.5"))),
        "[overlay/i] +1.5s  msg [emergency, glow]"
    );
    assert_eq!(
        action_label(&overlay(Treatment::Plain, VoicePriority::Ambient), &None),
        "[overlay/i]  msg [ambient]"
    );
    assert_eq!(
        action_label(&Action::PlaySound { sound: None, delay: 2.0f64 }, &Some(s("2.0"))),
        "[play_sound] +2.0s  (none)"
    );
    assert_eq!(
        action_label(
            &Action::<f64>::VoiceAlert { tts_text: s("t"), priority: VoicePriority::Ambient },
            &None
        ),
        "[voice/ambient]  t"
    );
    assert_eq!(
        action_label(&Action::<f64>::StoreVar { var_name: s("n"), value: s("v") }, &None),
        "[store_var]  n = v"
    );
}

// ── Editors ─────────────────────────────────────────────────────────────────

#[test]
fn untouched_editors_change_nothing() {
    let c = Condition::Var {
        var_name: s("n"),
        op: VarOp::Lt,
        value: s("5"),
    };
    let again = edited_condition(condition_input(&c));
    assert_eq!(condition_label(&again), condition_label(&c));
    let c = blank_condition();
    assert_eq!(
        condition_label(&edited_condition(condition_input(&c))),
        "[match/regex]  "
    );
}

fn action_input(kind: usize) -> ActionInput<f64> {
    ActionInput {
        kind,
        icon: s("a.png"),
        icon_color: s("#FF0000"),
        message: s("m"),
        message_color: s(""),
        border_color: s(""),
        delay: 1.0,
        treatment: 3,
        overlay_priority: 2,
        sound: Some(s("ding")),
        tts_text: s("speak"),
        emergency: false,
        ambient: true,
        var_name: s("n"),
        value: s("v"),
    }
}

#[test]
fn actions_are_read_from_the_editor() {
    match edited_action(action_input(0)) {
        Action::Overlay { color, treatment, priority, .. } => {
            assert_eq!(color, "");
            assert_eq!(treatment, Treatment::Pulse);
            assert_eq!(priority, VoicePriority::Ambient);
        }
        _ => panic!("an overlay"),
    }
    let mut i = action_input(0);
    i.icon = s("colorbox");
    match edited_action(i) {
        Action::Overlay { color, .. } => assert_eq!(color, "#FF0000"),
        _ => panic!("an overlay"),
    }
    assert!(matches!(
        edited_action(action_input(1)),
        Action::StoreVar { .. }
    ));
    match edited_action(action_input(2)) {
        Action::VoiceAlert { priority, .. } => assert_eq!(priority, VoicePriority::Ambient),
        _ => panic!("a voice alert"),
    }
    match edited_action(action_input(3)) {
        Action::PlaySound { sound, delay } => {
            assert_eq!(sound, Some(s("ding")));
            assert_eq!(delay, 1.0);
        }
        _ => panic!("a sound"),
    }
}

#[test]
fn editors_show_actions() {
    let a = shown_action(&blank_action(0.0f64));
    assert_eq!((a.kind, a.treatment, a.overlay_priority), (0, 0, 1));
    let a = shown_action(&Action::<f64>::VoiceAlert {
        tts_text: s("t"),
        priority: VoicePriority::Emergency,
    });
    assert_eq!(a.kind, 2);
    assert_eq!(action_checks(&a), vec![514]);
    let texts = action_texts(&a, s("1.5"));
    let c = action_editor(area(), &texts, &action_checks(&a), 40);
    let combo = c.iter().find(|c| c.id == 501).unwrap();
    assert_eq!(combo.h, 14 * 26 + 4);
    assert_eq!(c.iter().find(|c| c.id == 513).unwrap().text, "t");
    assert!(c.iter().find(|c| c.id == 514).unwrap().checked);
    let g = action_groups(3, true, "colorbox");
    assert!(g.sound && g.delay && g.sound_test && g.icon_color && !g.overlay);
    assert_eq!(sound_rows(3), (52, 82));
    assert_eq!(sound_rows(0), (202, 232));
}

#[test]
fn triggers_are_read_from_the_editor() {
    let t: TriggerDef<f64> = edited_trigger(s("n"), false, 1, vec![], vec![]);
    assert_eq!(t.condition_logic, ConditionLogic::Any);
    assert!(!t.enabled);
}

// ── Sounds and icons ────────────────────────────────────────────────────────

#[test]
fn labels_are_listed_in_order_and_read_back() {
    let l = |n: &str, f: &str| SoundLabel {
        name: s(n),
        file: s(f),
    };
    let lines = label_list(vec![l("zap", "1.wav"), l("ding", "2.wav")]);
    assert_eq!(lines, vec!["ding  —  2.wav", "zap  —  1.wav"]);
    assert_eq!(label_of_line(&lines[0]), "ding");
    assert_eq!(label_of_line("plain"), "plain");
    let e = edited_label("  x ", "f.wav").unwrap();
    assert_eq!(e.name, "x");
    assert!(edited_label("  ", "f.wav").is_none());
    assert!(edited_label("x", "").is_none());
}

#[test]
fn packages_are_guarded() {
    assert_eq!(current_package(s("")), "default");
    assert!(matches!(rename_step("default"), PackageStep::Refused(t) if t == NO_DEFAULT_RENAME));
    assert!(matches!(rename_step("mine"), PackageStep::AskName));
    assert!(matches!(delete_step("default", "x"), PackageStep::Refused(t) if t == NO_DEFAULT_DELETE));
    assert!(matches!(delete_step("mine", "mine"), PackageStep::Refused(t) if t == NO_ACTIVE_DELETE));
    assert!(matches!(delete_step("mine", "x"), PackageStep::Ask(t)
        if t == "Delete package \"mine\" and all its sounds? This cannot be undone."));
    assert_eq!(suggested_copy("mine"), "mine copy");
    assert_eq!(typed_name(" a ", None), Some(s("a")));
    assert_eq!(typed_name(" a ", Some("a")), None);
    assert_eq!(typed_name("  ", None), None);
    assert_eq!(active_after_rename(s("a"), "a", "b"), "b");
    assert_eq!(active_after_rename(s("c"), "a", "b"), "c");
    let pk = vec![s("default"), s("mine")];
    assert_eq!(package_selection(&pk, "", "mine"), 1);
    assert_eq!(package_selection(&pk, "default", "mine"), 0);
    assert_eq!(package_selection(&pk, "gone", "mine"), 0);
}

#[test]
fn deleted_sounds_stay_selectable() {
    let o = |k: &str| SoundOption {
        key: s(k),
        label: s(k),
    };
    let v = keep_current(vec![o(""), o("ding")], &Some(s("zap")));
    assert_eq!(v.len(), 3);
    assert_eq!(sound_position(&v, &Some(s("zap"))), 2);
    assert_eq!(sound_position(&v, &None), 0);
    assert_eq!(sound_at(&v, 0), None);
    assert_eq!(sound_at(&v, 1), Some(s("ding")));
    assert_eq!(sound_at(&v, 9), None);
    let v = keep_current(v, &Some(s("ding")));
    assert_eq!(v.len(), 3);
    assert_eq!(sound_list_extent(&v), 258);
    assert_eq!(
        sound_list_extent(&vec![o(&"x".repeat(40))]),
        300
    );
}

#[test]
fn icons_are_listed() {
    assert!(picture_file("a.png"));
    assert!(picture_file("a.b.jpg"));
    assert!(!picture_file(".png"));
    assert!(!picture_file("a.gif"));
    assert!(!picture_file("png"));
    let files = icon_files(
        &vec![s("b.png"), s("a.jpg"), s("stock.png"), s("c.txt")],
        &["stock.png"],
    );
    assert_eq!(files, vec!["a.jpg", "b.png"]);
    let items = build_icon_items(&files, 7, &vec![1, 2]);
    assert_eq!(items[0].label, "(none)");
    assert_eq!(items[1].key, "colorbox");
    assert_eq!(items[2].label, "a");
    assert_eq!(find_icon_index(&items, "b.png"), 3);
    assert_eq!(find_icon_index(&items, "gone.png"), 0);
    assert_eq!(icon_label("x.png.jpg"), "x");
    assert_eq!(sort_texts(vec![s("b"), s("a"), s("B")]), vec!["B", "a", "b"]);
}

#[test]
fn icons_are_painted() {
    assert_eq!(icon_paint("", true), IconPaint::Nothing);
    assert_eq!(icon_paint("a.png", true), IconPaint::Thumbnail);
    assert_eq!(icon_paint("a.png", false), IconPaint::Solid);
    assert_eq!(icon_paint("colorbox", true), IconPaint::Checkerboard);
    assert_eq!(row_colors(true), (0x00D77800, 0x00FFFFFF));
    assert_eq!(thumb_size(64, 8), (20, 20));
    assert_eq!(thumb_size(16, 8), (16, 8));
    assert_eq!(icon_combo_height(0), 30);
    let cells = checkerboard(10, 20, 12, 5);
    assert_eq!(cells.len(), 1);
    assert_eq!(cells[0].len(), 3);
    assert_eq!((cells[0][2].left, cells[0][2].right), (20, 22));
    assert!(cells[0][0].white && !cells[0][1].white);
}

// ── Colours ─────────────────────────────────────────────────────────────────

#[test]
fn colors_are_read_and_written() {
    assert_eq!(hex_to_colorref("#010203"), Some(0x030201));
    assert_eq!(hex_to_colorref("##A0b0C0"), Some(0xC0B0A0));
    assert_eq!(hex_to_colorref("#12345"), None);
    assert_eq!(hex_to_colorref("#12345g"), None);
    assert_eq!(hex_to_colorref(""), None);
    assert_eq!(colorref_to_hex(0x030201), "#010203");
    assert_eq!(hex_to_colorref(&colorref_to_hex(0xABCDEF)), Some(0xABCDEF));
    assert_eq!(swatch_color("", DEFAULT_ICON_SWATCH_RGB), 140 + 256 * 140 + 65536 * 150);
}

// ── Commands ────────────────────────────────────────────────────────────────

#[test]
fn notices_are_commands() {
    assert_eq!(split_notice(0x0300_0067), (103, 0x300));
    assert_eq!(command_of(220, 0), Command::Save);
    assert_eq!(command_of(201, 2), Command::EditTrigger);
    assert_eq!(command_of(201, 1), Command::SelectTrigger);
    assert_eq!(command_of(201, 5), Command::Nothing);
    assert_eq!(command_of(909, 0), Command::ImportPackage);
    assert_eq!(editor_command_of(303, 2), EditorCommand::EditCondition);
    assert_eq!(editor_command_of(509, 0), EditorCommand::AcceptAction);
    assert_eq!(editor_command_of(512, 1), EditorCommand::Nothing);
    assert_eq!(shown_panels(3), [false, false, false, true, false, false, false, false]);
    assert_eq!(centre(1920, 470), 725);
    assert_eq!(centre(100, 301), -100);
}

#[test]
fn windows_are_reset_and_unlocked() {
    let mut c = cfg();
    c.overlay_meter.x = 5;
    c.overlay_meter.locked = true;
    c.overlay_history.locked = true;
    let (c, store) = change_at_once(c, Command::ShowAllWindows);
    assert!(store);
    assert!(!c.overlay_meter.locked && !c.overlay_history.locked);
    assert_eq!(c.overlay_meter.x, 5);
    let (c, _) = change_at_once(c, Command::ResetMeter);
    assert_eq!((c.overlay_meter.x, c.overlay_meter.y), (-1, -1));
    let (_, store) = change_at_once(c, Command::Save);
    assert!(!store);
}

#[test]
fn work_starts_with_a_word() {
    assert_eq!(start_url_test(""), (false, URL_MISSING));
    assert_eq!(start_url_test("x"), (true, URL_TESTING));
    assert_eq!(start_icon_import(false), (false, LOG_MISSING));
    assert!(start_icon_import(true).0);
}

#[test]
fn imports_are_told() {
    let mut r = ExtractResult {
        searched_dir: s("D"),
        searched_dir_exists: false,
        extracted: 0,
        sheets_found: vec![],
        sheets_missing: vec![s("Spells01.tga"), s("Spells02.tga")],
        cells_scanned: 3,
        blank_skipped: 2,
        duplicates_skipped: 1,
        dir_listing: vec![s("a"), s("b")],
        errors: vec![s("e1"), s("e2")],
    };
    assert_eq!(import_status(&r), "0 extracted, 1 duplicates skipped");
    assert_eq!(
        import_detail(&r),
        "Searched: D  [does not exist]\n\nExtracted 0 new icon(s) from 0 sheet(s) into the icons \
         folder.\n\nSheets found: (none)\nSheets missing: Spells01.tga, Spells02.tga\nCells \
         scanned: 3\nBlank cells skipped: 2\nDuplicate icons skipped: 1\n\nNo Spells0N.tga sheets \
         matched. Actually found in that folder:\na, b\n\nErrors:\ne1\ne2"
    );
    r.dir_listing = vec![s("x"); 20];
    r.errors.clear();
    r.extracted = 1;
    let d = import_detail(&r);
    assert!(d.contains("x, …"));
    assert!(d.ends_with("add or edit a trigger action."));
}

// ── Registration ────────────────────────────────────────────────────────────

fn reply() -> RegisterReply {
    RegisterReply {
        status: 200,
        status_text: s("200 OK"),
        unreadable: None,
        error: None,
        stream_id: Some(s("id")),
        stream_token: Some(s("st")),
        view_token: Some(s("vt")),
    }
}

fn refused(r: RegisterReply) -> String {
    match register_result(r) {
        RegisterResult::Refused(e) => e,
        RegisterResult::Registered { .. } => panic!("refused"),
    }
}

#[test]
fn replies_are_judged() {
    assert!(matches!(register_result(reply()), RegisterResult::Registered { .. }));
    assert_eq!(refused(RegisterReply { status: 401, ..reply() }), PASSWORD_WANTED);
    assert_eq!(
        refused(RegisterReply { status: 404, status_text: s("404 Not Found"), ..reply() }),
        "Server returned 404 Not Found"
    );
    assert_eq!(
        refused(RegisterReply { unreadable: Some(s("eof")), ..reply() }),
        "Bad response: eof"
    );
    assert_eq!(
        refused(RegisterReply { error: Some(s("full")), ..reply() }),
        "Server error: full"
    );
    assert_eq!(
        refused(RegisterReply { stream_id: None, ..reply() }),
        "missing stream_id in server response"
    );
    assert_eq!(
        refused(RegisterReply { stream_token: None, ..reply() }),
        "missing stream_token in server response"
    );
    assert_eq!(
        refused(RegisterReply { view_token: None, ..reply() }),
        "missing view_token in server response"
    );
}

#[test]
fn servers_are_tested() {
    assert_eq!(health_endpoint("http://h//"), "http://h/health");
    assert_eq!(register_endpoint("http://h"), "http://h/stream");
    assert_eq!(stream_endpoint("http://h/", "id"), "http://h/stream/id");
    assert_eq!(
        url_test_text(&url_test_result(Some(true), None)),
        "Connected — open registration"
    );
    assert_eq!(
        url_test_text(&url_test_result(Some(true), Some(true))),
        "Connected — password required"
    );
    assert_eq!(
        url_test_text(&url_test_result(None, Some(true))),
        format!("Could not reach server: {}", NOT_OURS)
    );
    assert_eq!(
        url_test_text(&UrlTestResult::Failed(s("x"))),
        "Could not reach server: x"
    );
}

fn nobody() -> Identity {
    Identity {
        player: None,
        server: None,
        game: None,
    }
}

#[test]
fn registrations_come_and_go() {
    let mut reg: Registration = first_registration(&cfg(), &nobody());
    assert_eq!(reg.stream_id_text, "Not registered");
    assert!(matches!(reg.press("", "Frok"), RegisterStep::Incomplete));
    assert!(matches!(reg.press("http://h", "Frok"), RegisterStep::Send));
    assert!(!reg.can_press(0, 4));
    assert_eq!(reg.button_text(), "Register");
    let c = reg.registered(cfg(), s("id"), s("st"), s("vt"), "http://h", "");
    assert!(c.is_registered());
    assert_eq!(c.server_url, Some(s("http://h")));
    assert_eq!(c.log_path, None);
    assert!(matches!(reg.press("", ""), RegisterStep::AskUnregister));
    assert!(reg.can_press(0, 0));
    let c = reg.unregister(c);
    assert!(!c.is_registered());
    assert_eq!(reg.stream_id_text, "");
}

#[test]
fn hand_set_names_are_kept() {
    let mut reg = first_registration(&cfg(), &nobody());
    let (p, sv) = reg.names_from_log("logs/eqlog_Frok_test.txt");
    assert_eq!((p, sv), (Some(s("Frok")), Some(s("test"))));
    assert!(reg.note_edit(103, 0x300));
    assert!(reg.note_edit(106, 0x300));
    assert!(!reg.note_edit(102, 1));
    let (p, sv) = reg.names_from_log("logs/eqlog_Frok_test.txt");
    assert_eq!((p, sv), (None, None));
}

// ── The form ────────────────────────────────────────────────────────────────

fn form() -> FormInput<f32> {
    FormInput {
        player: s("Frok"),
        log_path: s("a.txt"),
        server_url: s(""),
        password: s(""),
        game_label: s("Everquest Legends"),
        server: s("Test"),
        public: true,
        remote_logging: false,
        sound_enabled: true,
        sound_volume: 55,
        sound_package: s(""),
        meter_enabled: true,
        meter_locked: false,
        meter_max_rows: s("99"),
        meter_idle_secs: s("x"),
        meter_font_size: s("1"),
        meter_x: s("-7"),
        meter_y: s("y"),
        font: 2,
        start_font_size: s("5"),
        max_font_size: s("301"),
        fly_ms: s("1"),
        hold_secs: 1.5,
        alpha: s("999"),
        overlay_enabled: true,
        overlay_locked: true,
        overlay_x: s("1"),
        overlay_y: s("2"),
        history_font_size: s(""),
        history_idle_secs: s("3"),
        history_max_entries: s("0"),
        history_width: s("10"),
        history_enabled: false,
        history_locked: false,
        history_x: s("3"),
        history_y: s("4"),
        tts_enabled: true,
        tts_speed: 1,
        tts_smart: false,
        tts_queue: true,
        tts_read_emergency: true,
        tts_read_operational: false,
        tts_read_ambient: true,
        tts_voice: 1,
        voices: vec![s("v0"), s("v1")],
    }
}

#[test]
fn saved_fields_are_within_bounds() {
    let mut before = cfg();
    before.stream_id = Some(s("id"));
    before.stream_token = Some(s("st"));
    before.view_token = Some(s("vt"));
    before.server_url = Some(s("http://h"));
    before.public_stream = false;
    let saved = save(before, form()).unwrap();
    let c = saved.cfg;
    assert_eq!((c.meter_max_rows, c.meter_idle_secs, c.meter_font_size), (30, 10, 8));
    assert_eq!((c.overlay_meter.x, c.overlay_meter.y), (-7, -1));
    assert_eq!(c.overlay_font, "Consolas");
    assert_eq!((c.overlay_start_font_size, c.overlay_max_font_size), (6, 300));
    assert_eq!((c.overlay_fly_ms, c.overlay_alpha), (16, 255));
    assert_eq!((c.overlay_history_font_size, c.overlay_history_max_entries), (12, 1));
    assert_eq!(c.overlay_history_width, 160);
    assert_eq!(c.overlay_hold_secs, 1.5);
    assert_eq!(c.sound_package, "default");
    assert_eq!(c.server_url, None);
    assert_eq!(c.tts_speed, TtsSpeed::Fast);
    assert_eq!(c.tts_audio_mode, TtsAudioMode::QueueAll);
    assert_eq!(c.tts_voice, "v1");
    assert_eq!(c.stream_id, Some(s("id")));
    assert_eq!(saved.who.player, Some(s("Frok")));
    assert_eq!(saved.who.game, Some(s("eql")));
    let p = saved.patch.unwrap();
    assert_eq!((p.url.as_str(), p.stream_id.as_str(), p.public), ("http://h", "id", true));
}

#[test]
fn names_with_other_signs_are_refused() {
    let mut f = form();
    f.player = s("Frok2");
    assert!(save(cfg(), f).is_none());
    let mut f = form();
    f.player = s("");
    let saved = save(cfg(), f).unwrap();
    assert_eq!(saved.who.player, None);
    assert!(saved.patch.is_none());
    assert!(letters_only("aZ"));
    assert!(!letters_only("ä"));
}

#[test]
fn drafts_show_what_is_stored() {
    let mut c = cfg();
    c.log_path = Some(s("a.txt"));
    let mut who = nobody();
    who.game = Some(s("Everquest Legends"));
    let d = logging_draft(&c, &who, s("Frok"), None);
    assert_eq!((d.log_path.as_str(), d.server.as_str(), d.game.as_str()), ("a.txt", "Test", "eql"));
    assert_eq!(migrate_game(s("other")), "other");
    assert_eq!(migrate_game(s("")), "eql");
    assert_eq!(label_to_game_id("whatever"), "eql");
    assert_eq!(selection_for(&FONT_NAMES, "Tahoma"), 4);
    assert_eq!(selection_for(&FONT_NAMES, "Comic"), 0);
    for sp in [TtsSpeed::Normal, TtsSpeed::Fast, TtsSpeed::Faster, TtsSpeed::Fastest] {
        assert_eq!(speed_of_index(speed_index(sp)), sp);
    }
}

// ── Layout ──────────────────────────────────────────────────────────────────

fn area() -> Area {
    Area {
        left: 12,
        top: 34,
        width: 446,
        height: 426,
    }
}

#[test]
fn controls_stand_in_their_area() {
    let c = triggers_panel(area());
    assert_eq!(c.len(), TRIGGERS.len());
    let list = &c[0];
    assert_eq!(list.kind, ControlKind::ListBox);
    // a list of 8 less than the panel in height, and up to the buttons in width
    assert_eq!((list.x, list.y, list.w, list.h), (16, 38, 446 - 90 - 4 - 8, 418));
    let add = &c[1];
    assert_eq!((add.x, add.y, add.w, add.h, add.id), (12 + 446 - 94, 38, 90, 24, 202));
    let c = lay_out(
        &TRIGGERS,
        area(),
        &vec![FieldText { id: 202, text: s("New") }],
        &vec![201],
    );
    assert_eq!(c[1].text, "New");
    assert!(c[0].checked && !c[1].checked);
}

#[test]
fn panels_show_the_settings() {
    let mut cf = cfg();
    cf.meter_max_rows = 9;
    cf.overlay_alert.enabled = true;
    cf.overlay_alert.x = -20;
    cf.sound_volume = 180;
    cf.tts_audio_mode = TtsAudioMode::QueueAll;
    let text_of = |v: &Vec<froklog::settings::layout::Control>, id: i32| {
        v.iter().find(|c| c.id == id).unwrap().text.clone()
    };
    assert_eq!(text_of(&meter_panel(area(), &cf), 152), "9");
    let w = windows_panel(area(), &cf);
    assert_eq!(text_of(&w, 216), "-20");
    assert!(w.iter().find(|c| c.id == 215).unwrap().checked);
    let v = voice_panel(area(), &cf);
    assert!(v.iter().find(|c| c.id == 603).unwrap().checked);
    assert!(!v.iter().find(|c| c.id == 602).unwrap().checked);
    assert!(sounds_panel(area(), &cf).iter().any(|c| c.text == "100%"));
    assert_eq!(text_of(&appearance_panel(area(), &cf, s("2.5")), 222), "2.5");
    let reg = first_registration(&cf, &nobody());
    let d = logging_draft(&cf, &nobody(), s("Frok"), None);
    let l = logging_panel(area(), &d, &reg);
    assert_eq!(text_of(&l, 111), "Register");
    assert_eq!(text_of(&l, 103), "Frok");
    assert_eq!(general_panel(area()).len(), 3);
    assert_eq!(frame(area()).len(), 3);
    assert_eq!(text_of(&trigger_editor(area(), "t", true), 300), "t");
    assert_eq!(
        text_of(&condition_editor(area(), &condition_input(&blank_condition())), 402),
        ""
    );
    assert_eq!(text_of(&label_editor(area(), "n", "f"), 911), "f");
    let p = prompt(area(), "Package name:", "x");
    assert_eq!(p[0].text, "Package name:");
    assert_eq!(p[0].id, 0);
    assert_eq!(selected_voice(&vec![s("a"), s("b"), s("a")], "a"), 2);
    assert_eq!(selected_voice(&vec![s("a")], ""), 0);
}

#[test]
fn texts_are_widened() {
    let want: Vec<u16> = "aä\u{1F4CC}".encode_utf16().chain(std::iter::once(0)).collect();
    assert_eq!(wide("aä\u{1F4CC}"), want);
}

#[test]
fn lists_hand_back_what_they_showed() {
    for i in 0..2 {
        assert_eq!(ConditionLogic::of_index(i).index(), i);
    }
    for i in 0..3 {
        assert_eq!(MatchType::of_index(i).index(), i);
        assert_eq!(VoicePriority::of_index(i).index(), i);
    }
    for i in 0..7 {
        assert_eq!(VarOp::of_index(i).index(), i);
    }
    for i in 0..4 {
        assert_eq!(Treatment::of_index(i).index(), i);
    }
    assert_eq!(VoicePriority::of_radio(false, false), VoicePriority::Operational);
}

#[test]
fn untouched_counts_are_stored_again() {
    let mut c = cfg();
    c.meter_max_rows = 17;
    c.meter_font_size = 9;
    let shown = meter_panel(area(), &c);
    let field = |id: i32| shown.iter().find(|x| x.id == id).unwrap().text.clone();
    let mut f = form();
    f.meter_max_rows = field(152);
    f.meter_font_size = field(154);
    let saved = save(c, f).unwrap().cfg;
    assert_eq!((saved.meter_max_rows, saved.meter_font_size), (17, 9));
}

#[test]
fn untouched_actions_change_nothing() {
    let a = Action::Overlay {
        icon: s("colorbox"),
        color: s("#112233"),
        message: s("m"),
        message_color: s("#FFFFFF"),
        border_color: s(""),
        delay: 1.5f64,
        treatment: Treatment::Vibrate,
        priority: VoicePriority::Ambient,
    };
    let sh = shown_action(&a);
    let again = edited_action(ActionInput {
        kind: sh.kind,
        icon: sh.icon,
        icon_color: sh.icon_color,
        message: sh.message,
        message_color: sh.message_color,
        border_color: sh.border_color,
        delay: 1.5,
        treatment: sh.treatment,
        overlay_priority: sh.overlay_priority,
        sound: sh.sound,
        tts_text: sh.tts_text,
        emergency: sh.voice_priority == VoicePriority::Emergency,
        ambient: sh.voice_priority == VoicePriority::Ambient,
        var_name: sh.var_name,
        value: sh.value,
    });
    match again {
        Action::Overlay { color, treatment, priority, delay, .. } => {
            assert_eq!(color, "#112233");
            assert_eq!((treatment, priority), (Treatment::Vibrate, VoicePriority::Ambient));
            assert_eq!(delay, 1.5);
        }
        _ => panic!("an overlay"),
    }
}

#[test]
fn empty_fields_give_hints() {
    assert_eq!(hint(103), Some("Auto from log filename"));
    assert_eq!(hint(106), Some("https://server:8766"));
    assert_eq!(hint(402), Some("e.g. You have slain {target}!  or  (?P<name>.+) slain"));
    assert_eq!(hint(504), Some("0 or empty = immediate"));
    let captures = Some("{1},{2}=positional; {name}=named capture; {var}=stored var");
    assert_eq!((hint(503), hint(508), hint(513)), (captures, captures, captures));
    assert_eq!(hint(104), None);
}

#[test]
fn choices_have_names_in_the_lists() {
    assert_eq!(SPEED_NAMES[speed_index(TtsSpeed::Normal)], "Normal (1x)");
    assert_eq!(SPEED_NAMES[speed_index(TtsSpeed::Fast)], "Fast (1.2x)");
    assert_eq!(SPEED_NAMES[speed_index(TtsSpeed::Faster)], "Faster (1.5x)");
    assert_eq!(SPEED_NAMES[speed_index(TtsSpeed::Fastest)], "Fastest (2x)");
    assert_eq!(LOGIC_NAMES[ConditionLogic::Any.index()], "ANY (OR)");
    assert_eq!(MATCH_NAMES[MatchType::Glob.index()], "Glob  (* ? {name})");
    assert_eq!(OP_NAMES[VarOp::Gte.index()], "gte (≥)");
    assert_eq!(TREATMENT_NAMES[Treatment::Plain.index()], "None");
    assert_eq!(PRIORITY_NAMES[VoicePriority::Ambient.index()], "Ambient (may drop)");
    assert_eq!(CONDITION_KINDS[1], "Variable");
    let voice: Action<f64> = Action::VoiceAlert { tts_text: s("x"), priority: VoicePriority::Ambient };
    assert_eq!(ACTION_KINDS[action_kind(&voice)], "Voice Alert (TTS)");
}

#[test]
fn sound_tasks_tell_how_they_went() {
    let told = |t: SoundTask| (t.title(), t.failed("no disk"));
    assert_eq!(told(SoundTask::AddLabel), ("Add Sound Label", Some(s("Could not add label: no disk"))));
    assert_eq!(
        told(SoundTask::EditLabel),
        ("Edit Sound Label", Some(s("Could not update label: no disk")))
    );
    assert_eq!(told(SoundTask::DeleteLabel), ("Delete Sound Label", None));
    assert_eq!(
        told(SoundTask::NewPackage),
        ("New Package", Some(s("Could not create package: no disk")))
    );
    assert_eq!(
        told(SoundTask::RenamePackage),
        ("Rename Package", Some(s("Could not rename package: no disk")))
    );
    assert_eq!(
        told(SoundTask::DeletePackage),
        ("Delete Package", Some(s("Could not delete package: no disk")))
    );
    assert_eq!(told(SoundTask::ExportPackage), ("Export Package", Some(s("Export failed: no disk"))));
    assert_eq!(told(SoundTask::ImportPackage), ("Import Package", Some(s("Import failed: no disk"))));
    assert_eq!(label_question("ding"), "Delete sound label \"ding\"?");
    assert_eq!(exported("loud", "a.zip"), "Exported \"loud\" to:\na.zip");
    assert_eq!(imported("loud"), "Imported package \"loud\".");
}

#[test]
fn registrations_are_shown() {
    let mut reg = first_registration(&cfg(), &nobody());
    assert!(!reg.can_copy());
    assert_eq!(reg.shown_id(), "Not registered");
    let step = reg.press("", "Frok");
    assert_eq!(
        Registration::words(&step),
        Some(("Register", "Enter a server URL (and test it) and a player name."))
    );
    assert_eq!(Registration::words(&reg.press("u", "Frok")), None);
    let c = reg.registered(cfg(), s("id"), s("t"), s("v"), "u", "l");
    assert!(reg.can_copy());
    assert_eq!(reg.shown_id(), "id");
    assert_eq!(
        Registration::words(&reg.press("u", "Frok")),
        Some(("Unregister", "Clear stream credentials? The viewer URL will stop working."))
    );
    reg.unregister(c);
    assert!(!reg.can_copy());
    assert_eq!(reg.shown_id(), "Not registered");
}

#[test]
fn resets_are_shown_in_the_fields() {
    assert_eq!(position_fields(Command::ResetMeter), Some((156, 157)));
    assert_eq!(position_fields(Command::ResetAlert), Some((216, 217)));
    assert_eq!(position_fields(Command::ResetHistory), Some((227, 228)));
    assert_eq!(position_fields(Command::Save), None);
}
