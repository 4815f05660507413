use froklog::config::{AlertStyle, Config};
use froklog::overlay::alert::{
    bundled_sound_name, color_or, plays, saved_position, set_active_sound_package,
    set_sound_enabled, set_sound_volume_percent, sound_package_for, OverlayState, SoundSettings,
    WindowChange, DEFAULT_TEXT_RGB,
};

fn fresh() -> Config<f32> {
    let mut cfg: Config<f32> = Config::fresh(2.5, 2.5, 2.5);
    cfg.overlay_alert.enabled = true;
    cfg.alert_style = AlertStyle::Separate;
    cfg
}

#[test]
fn alerts_show_unless_the_log_is_silent() {
    let mut o = OverlayState::new(&fresh(), false);
    assert!(o.drains_queue(false));
    assert!(!o.drains_queue(true));
    assert!(matches!(o.frame(false, true), WindowChange::Show));
    assert!(matches!(o.frame(false, true), WindowChange::Keep));
    assert!(matches!(o.frame(true, true), WindowChange::Hide));
    assert!(matches!(o.frame(true, true), WindowChange::Keep));
}

#[test]
fn merged_style_leaves_alerts_to_the_other_window() {
    let mut cfg = fresh();
    cfg.alert_style = AlertStyle::Merged;
    let mut o = OverlayState::new(&cfg, false);
    assert!(!o.drains_queue(false));
    assert!(matches!(o.frame(false, true), WindowChange::Keep));
}

#[test]
fn locked_windows_let_clicks_through_unless_placed() {
    let mut cfg = fresh();
    cfg.overlay_alert.locked = true;
    cfg.overlay_start_font_size = 2;
    let mut o = OverlayState::new(&cfg, false);
    assert!(o.click_through());
    assert_eq!(o.start_pt, 6);
    o.sync_config(&cfg, true);
    assert!(!o.click_through());
}

#[test]
fn negative_positions_are_real() {
    assert_eq!(saved_position(-1, -1), None);
    assert_eq!(saved_position(-1, -200), Some((-1, -200)));
}

#[test]
fn colors_fall_back() {
    assert_eq!(color_or(Some(0x123456), DEFAULT_TEXT_RGB), (0x12, 0x34, 0x56));
    assert_eq!(color_or(None, DEFAULT_TEXT_RGB), (255, 255, 255));
}

#[test]
fn sounds_follow_their_settings() {
    let mut st = SoundSettings::new();
    assert_eq!(st.volume_percent, 100);
    set_sound_volume_percent(&mut st, 40);
    assert_eq!(st.volume_percent, 40);
    set_sound_enabled(&mut st, false);
    assert!(!plays(&st, false));
    assert!(plays(&st, true));
    assert_eq!(sound_package_for(&st, "ding"), Some("default".to_string()));
    set_active_sound_package(&mut st, "mine");
    assert_eq!(sound_package_for(&st, "ding"), Some("mine".to_string()));
    assert_eq!(sound_package_for(&st, ""), None);
}

#[test]
fn bundled_sounds_are_named_below_their_folder() {
    assert_eq!(bundled_sound_name("sounds/ding.wav"), Some("ding.wav".to_string()));
    assert_eq!(bundled_sound_name("sounds\\ding.wav"), Some("ding.wav".to_string()));
    assert_eq!(bundled_sound_name("sounds/sounds/ding.wav"), Some("ding.wav".to_string()));
    assert_eq!(bundled_sound_name("C:/ding.wav"), None);
}

#[test]
fn windows_are_put_on_top_now_and_then() {
    let mut w = OverlayState::new(&fresh(), false);
    let tops: Vec<u64> = (1..=600).filter(|_| w.count_frame()).collect();
    assert_eq!(tops, vec![300, 600]);
    assert_eq!(w.tick_count, 600);
}

#[test]
fn windows_appear_and_disappear_in_turn() {
    let mut w = OverlayState::new(&fresh(), false);
    let wanted = [true, true, false, false, true];
    let changes: Vec<WindowChange> = wanted.iter().map(|a| w.frame(false, *a)).collect();
    let told: Vec<i32> = changes
        .iter()
        .map(|c| match c {
            WindowChange::Show => 1,
            WindowChange::Hide => -1,
            WindowChange::Keep => 0,
        })
        .collect();
    assert_eq!(told, vec![1, 0, -1, 0, 1]);
    assert!(!w.drains_queue(true));
}
