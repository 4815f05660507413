use froklog::client::{
    after_engine, engine_stops, monitor_step, plan_engine, watch_step, MonitorStep,
};
use froklog::config::{
    player_name_from_path, server_name_from_path, Config, LogProfile, LogWatchMode,
};
use froklog::text::{
    decimal_string, join, parse_i32, parse_unsigned, replace, signed_decimal_string, sorts_before,
    split, trim, white_space,
};

fn s(t: &str) -> String {
    t.to_string()
}

fn profile(name: &str, path: &str) -> LogProfile {
    LogProfile {
        name: s(name),
        path: s(path),
        game: None,
        server: None,
        player: None,
        public_stream: false,
    }
}

fn fresh() -> Config<f32> {
    Config::fresh(2.5, 2.5, 2.5)
}

#[test]
fn names_come_from_the_logs_name() {
    assert_eq!(player_name_from_path("logs/eqlog_Frok_test_two.txt"), Some(s("Frok")));
    assert_eq!(server_name_from_path("logs/eqlog_Frok_test_two.txt"), Some(s("test_two")));
    assert_eq!(player_name_from_path("logs/eqlog_Frok.txt"), None);
}

#[test]
fn explicit_names_win() {
    let mut p = profile("p", "logs/eqlog_Frok_test.txt");
    assert_eq!(p.effective_player(), "Frok");
    assert_eq!(p.effective_server(), "test");
    p.player = Some(s("Toad"));
    p.server = Some(s(""));
    assert_eq!(p.effective_player(), "Toad");
    assert_eq!(p.effective_server(), "test");
}

#[test]
fn legacy_logs_become_profiles() {
    let mut cfg = fresh();
    cfg.log_path = Some(s("logs/eqlog_Frok_test.txt"));
    let (cfg, changed) = cfg.loaded();
    assert!(changed);
    assert_eq!(cfg.log_profiles.len(), 1);
    assert_eq!(cfg.log_profiles[0].path, "logs/eqlog_Frok_test.txt");
    assert_eq!(
        cfg.resolve_active_log_path(&vec![None]),
        Some(s("logs/eqlog_Frok_test.txt"))
    );
}

#[test]
fn the_freshest_log_is_watched_unless_one_is_pinned() {
    let mut cfg = fresh();
    cfg.log_profiles = vec![profile("a", "a.txt"), profile("b", "b.txt")];
    cfg.log_watch_mode = LogWatchMode::Auto;
    assert_eq!(cfg.active_index(&vec![Some(1), Some(2)]), Some(1));
    assert_eq!(cfg.active_index(&vec![Some(3), Some(2)]), Some(0));
    cfg.log_watch_mode = LogWatchMode::Pinned(s("a"));
    assert_eq!(cfg.active_index(&vec![Some(1), Some(2)]), Some(0));
}

#[test]
fn addresses_are_built_from_the_registration() {
    let mut cfg = fresh();
    assert!(!cfg.is_registered());
    assert_eq!(cfg.ingest_ws_url(), None);
    cfg.server_url = Some(s("https://host:1/"));
    cfg.stream_id = Some(s("abc"));
    cfg.stream_token = Some(s("st"));
    cfg.view_token = Some(s("vt"));
    assert!(cfg.is_registered());
    assert!(cfg.ingest_ws_url().unwrap().starts_with("wss://host:1/"));
    assert!(cfg.viewer_url().unwrap().contains("vt"));
}

#[test]
fn engines_need_a_log() {
    let mut cfg = fresh();
    assert!(plan_engine(&cfg, &vec![]).is_none());
    cfg.log_profiles = vec![profile("a", "logs/eqlog_Frok_test.txt")];
    let plan = plan_engine(&cfg, &vec![None]).unwrap();
    assert_eq!(plan.log_path, "logs/eqlog_Frok_test.txt");
    assert_eq!(plan.player_name, "Frok");
    assert!(plan.remote_target.is_none());
    assert!(matches!(monitor_step(true, true, true), MonitorStep::Stop));
    assert!(matches!(monitor_step(false, true, true), MonitorStep::Run));
    assert!(matches!(monitor_step(false, false, true), MonitorStep::Wait(_)));
    assert!(matches!(after_engine(true), MonitorStep::Stop));
    assert!(engine_stops(true, false));
    assert!(!engine_stops(false, false));
}

#[test]
fn another_log_restarts_the_engine() {
    let (last, again) = watch_step(&LogWatchMode::Auto, None, Some(s("a")));
    assert!(!again);
    let (last, again) = watch_step(&LogWatchMode::Auto, last, Some(s("a")));
    assert!(!again);
    let (_, again) = watch_step(&LogWatchMode::Auto, last, Some(s("b")));
    assert!(again);
}

#[test]
fn texts_are_taken_apart_and_put_together() {
    assert_eq!(split("a_b__c", '_'), vec!["a", "b", "", "c"]);
    assert_eq!(join(&vec![s("a"), s("b")], ", "), "a, b");
    assert_eq!(trim("\t x y \n"), "x y");
    assert_eq!(replace("aaa", "aa", "b"), "ba");
    for k in 0..0x11_0000u32 {
        if let Some(c) = char::from_u32(k) {
            assert_eq!(white_space(c), c.is_whitespace());
        }
    }
}

#[test]
fn numbers_are_read_and_written() {
    assert_eq!(decimal_string(0), "0");
    assert_eq!(decimal_string(u64::MAX), u64::MAX.to_string());
    assert_eq!(signed_decimal_string(i32::MIN), i32::MIN.to_string());
    assert_eq!(parse_unsigned("+12", 100), Some(12));
    assert_eq!(parse_unsigned("-0", 100), None);
    assert_eq!(parse_unsigned("101", 100), None);
    assert_eq!(parse_i32("-2147483648"), Some(i32::MIN));
    assert_eq!(parse_i32("2147483648"), None);
    assert_eq!(parse_i32(""), None);
}

#[test]
fn texts_sort_as_strings_do() {
    let words = ["", "a", "B", "b", "ab", "aa", "ä", "\u{1F4CC}"];
    for a in words {
        for b in words {
            assert_eq!(sorts_before(a, b), a <= b);
        }
    }
}

#[test]
fn names_come_behind_the_systems_separator() {
    let path = format!("a.b{0}logs{0}eqlog_Frok_test.txt", std::path::MAIN_SEPARATOR);
    assert_eq!(player_name_from_path(&path), Some(s("Frok")));
    assert_eq!(server_name_from_path(&path), Some(s("test")));
    assert_eq!(player_name_from_path("logs/.."), None);
    assert_eq!(player_name_from_path("/"), None);
    assert_eq!(player_name_from_path("eqlog_Frok_test.txt/"), Some(s("Frok")));
}

#[test]
fn fresh_settings_push_nothing() {
    let empty: Config<f32> = Config::of_empty_file(2.5, 2.5, 2.5);
    assert!(empty.remote_logging_enabled);
    assert!(!fresh().remote_logging_enabled);
    assert_eq!(empty.log_path, fresh().log_path);
    assert_eq!(empty.sound_package, fresh().sound_package);
    assert_eq!(empty.overlay_hold_secs, fresh().overlay_hold_secs);
}
