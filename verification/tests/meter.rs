use froklog::config::Config;
use froklog::number::{nearest_double_of, tenths_of};
use froklog::overlay::alert::WindowChange;
use froklog::overlay::meter::{
    build_mob_picker_entries, build_summary_line, class_color, compute_snapshot, fmt_duration,
    fmt_k, mob_label, pick_mob, picker_rows, saved_position, Bucket, CombatState,
    EntityCombatStats, EntityEntry, MeterAction, MeterState, MeterTab, MobInstance, Pet,
    PlayerClass, ACTIVE_DOT, AUTO_DOT, AUTO_LABEL, DEAD_DOT, IDLE_DOT,
};

const SEC: u64 = 1_000_000_000;

fn s(t: &str) -> String {
    t.to_string()
}

fn entry(name: &str, dmg: u64, heal: u64) -> EntityEntry {
    EntityEntry {
        name: s(name),
        stats: EntityCombatStats {
            total_damage: dmg,
            total_heals: heal,
            total_healed_received: heal / 2,
        },
    }
}

fn mob(id: u64, name: &str, first: u64, last: u64) -> MobInstance {
    MobInstance {
        id,
        name: s(name),
        first_seen: first * SEC,
        last_seen: last * SEC,
    }
}

fn state() -> CombatState {
    CombatState {
        player_name: s("Frok"),
        mob_name: s("last mob"),
        mob_list: vec![
            mob(1, "a rat", 0, 10),
            mob(2, "a bat", 5, 20),
            mob(3, "a bear", 6, 30),
        ],
        mob_damage: vec![
            Bucket { mob_id: 1, entries: vec![entry("Frok", 500, 0), entry("Toad", 900, 0)] },
            Bucket { mob_id: 2, entries: vec![entry("Fido", 300, 0)] },
            Bucket { mob_id: 3, entries: vec![entry("Stranger", 9000, 0)] },
        ],
        mob_tanking: vec![Bucket {
            mob_id: 1,
            entries: vec![entry("Toad", 70, 0), entry("a rat", 50, 0)],
        }],
        mob_healing: vec![Bucket { mob_id: 1, entries: vec![entry("Cleric", 0, 40)] }],
        mob_healed: vec![Bucket { mob_id: 1, entries: vec![entry("Toad", 0, 40)] }],
        confirmed_mobs: vec![s("a rat"), s("a bat"), s("a bear")],
        dead_mobs: vec![s("a rat")],
        known_pets: vec![Pet { name: s("Fido"), owner: s("Frok") }],
        player_classes: vec![PlayerClass { name: s("Toad"), codes: vec![s("WAR"), s("MNK")] }],
        elapsed_nanos: 7 * SEC,
    }
}

#[test]
fn the_meter_follows_the_players_own_fight() {
    let cs = state();
    assert!(cs.player_engaged(1));
    assert!(cs.player_engaged(2)); // through the pet
    assert!(!cs.player_engaged(3)); // someone else's fight, though the freshest
    assert_eq!(cs.resolve_view_mob_id(None), Some(2));
    assert_eq!(cs.resolve_view_mob_id(Some(3)), Some(3));
    assert_eq!(cs.resolve_view_mob_id(Some(99)), Some(2));
}

#[test]
fn rows_are_ranked_and_cut() {
    let cs = state();
    let t = compute_snapshot(&cs, 1, MeterTab::Dps, 1);
    assert_eq!(t.mob_name, "a rat");
    assert_eq!(t.rows.len(), 1);
    assert_eq!(t.rows[0].name, "Toad");
    assert_eq!(t.rows[0].color, (0xaf, 0x80, 0x3c));
    assert_eq!(t.footer_total, 1400);
    assert_eq!(t.elapsed_nanos, 10 * SEC);
    let mut names: Vec<String> = compute_snapshot(&cs, 1, MeterTab::Dps, 9)
        .rows
        .into_iter()
        .map(|r| r.name)
        .collect();
    let all = names.len();
    names.sort();
    names.dedup();
    assert_eq!(names.len(), all);
}

#[test]
fn mobs_are_no_tanks() {
    let cs = state();
    let t = compute_snapshot(&cs, 1, MeterTab::Tank, 5);
    assert_eq!(t.rows.len(), 1);
    assert_eq!(t.footer_total, 70);
    let h = compute_snapshot(&cs, 1, MeterTab::Heal, 5);
    assert_eq!(h.footer_total, 40);
    let r = compute_snapshot(&cs, 1, MeterTab::HealReceived, 5);
    assert_eq!(r.footer_total, 20);
    let none = compute_snapshot(&cs, 42, MeterTab::Dps, 5);
    assert_eq!(none.mob_name, "last mob");
    assert_eq!(none.rows.len(), 0);
    assert_eq!(none.elapsed_nanos, 7 * SEC);
}

#[test]
fn fights_last_at_least_a_millisecond() {
    let mut cs = state();
    cs.mob_list[0].last_seen = 0;
    assert_eq!(cs.mob_elapsed_nanos(1), 1_000_000);
}

#[test]
fn the_picker_lists_the_freshest_mobs() {
    let cs = state();
    let now = 34 * SEC;
    let e = build_mob_picker_entries(&cs, now);
    assert_eq!(e.len(), 4);
    assert_eq!(e[0].label, AUTO_LABEL);
    assert_eq!(e[0].dot, AUTO_DOT);
    assert_eq!(e[1].label, "a bear");
    assert_eq!(e[1].dot, ACTIVE_DOT); // 4 s
    assert_eq!(e[2].dot, IDLE_DOT); // 14 s
    assert_eq!(e[3].dot, DEAD_DOT); // dead, and 24 s
    let rows = picker_rows(&e, Some(3));
    assert_eq!(rows[0].id, -1);
    assert!(rows[1].selected);
    assert!(!rows[0].selected);
    let mut pinned = None;
    let mut open = true;
    pick_mob(&mut pinned, &mut open, rows[2].id);
    assert_eq!((pinned, open), (Some(2), false));
    pick_mob(&mut pinned, &mut open, rows[0].id);
    assert_eq!(pinned, None);
}

#[test]
fn the_picker_has_at_most_seven_entries() {
    let mut cs = state();
    for k in 0..20 {
        cs.mob_list.push(mob(100 + k, "a rat", k, 100 + k));
    }
    let e = build_mob_picker_entries(&cs, 200 * SEC);
    assert_eq!(e.len(), 7);
    assert_eq!(e[1].id, Some(119));
}

#[test]
fn tabs_have_labels() {
    assert_eq!(MeterTab::from_index(0).amount_col_label(), "Dmg");
    assert_eq!(MeterTab::from_index(3).rate_col_label(), "HPS");
    assert_eq!(MeterTab::from_index(9).rate_col_label(), "DPS");
}

#[test]
fn classes_have_colors() {
    assert_eq!(class_color("NEC"), (0x01, 0x64, 0xfa));
    assert_eq!(class_color("???"), (0x46, 0x46, 0x50));
}

fn fmt_k_by_floats(n: u64) -> String {
    if n >= 1_000_000 {
        let t = format!("{:.1}M", n as f64 / 1_000_000.0);
        t.strip_suffix(".0M").map(|p| format!("{p}M")).unwrap_or(t)
    } else if n >= 1_000 {
        let t = format!("{:.1}K", n as f64 / 1_000.0);
        t.strip_suffix(".0K").map(|p| format!("{p}K")).unwrap_or(t)
    } else {
        n.to_string()
    }
}

#[test]
fn large_numbers_are_short() {
    assert_eq!(fmt_k(999), "999");
    assert_eq!(fmt_k(1000), "1K");
    assert_eq!(fmt_k(1250), "1.2K");
    assert_eq!(fmt_k(1150), fmt_k_by_floats(1150));
    assert_eq!(fmt_k(2_500_000), "2.5M");
    let mut n: u64 = 1;
    while n < 1 << 62 {
        for d in [0u64, 1, 49, 50, 51, 950] {
            assert_eq!(fmt_k(n + d), fmt_k_by_floats(n + d), "{}", n + d);
        }
        n = n * 3 + 50;
    }
    for k in 0..2000u64 {
        let n = 1050 + 100 * k;
        assert_eq!(fmt_k(n), fmt_k_by_floats(n), "{}", n);
        let n = 1_050_000 + 100_000 * k;
        assert_eq!(fmt_k(n), fmt_k_by_floats(n), "{}", n);
    }
    assert_eq!(fmt_k(u64::MAX), fmt_k_by_floats(u64::MAX));
    assert_eq!(nearest_double_of(u64::MAX), 1u128 << 64);
    assert_eq!(tenths_of(12_345, 1_000), 123);
}

#[test]
fn durations_are_short() {
    assert_eq!(fmt_duration(59), "59s");
    assert_eq!(fmt_duration(65), "1:05");
    assert_eq!(fmt_duration(660), "11:00");
}

#[test]
fn summaries_fit_a_line() {
    let cs = state();
    let t = compute_snapshot(&cs, 1, MeterTab::Dps, 5);
    assert_eq!(
        build_summary_line(&t, MeterTab::Dps, 140, 10, &vec![64, 36]),
        "a rat: 1.4K dmg (140 dps) over 10s | 1. Toad 900 (64%), 2. Frok 500 (36%)"
    );
    let none = compute_snapshot(&cs, 42, MeterTab::Heal, 5);
    assert_eq!(
        build_summary_line(&none, MeterTab::Heal, 0, 7, &vec![]),
        "last mob: 0 heal (0 hps) over 7s"
    );
}

#[test]
fn labels_show_pin_and_caret() {
    assert_eq!(mob_label("a rat", true, false), "\u{1F4CC} a rat \u{25BE}");
    assert_eq!(mob_label("a rat", false, true), "a rat \u{25B4}");
    assert_eq!(saved_position(-1, 5), None);
    assert_eq!(saved_position(0, 5), Some((0, 5)));
}

fn meter(cfg: &Config<f32>, force: bool) -> MeterState {
    MeterState::new(cfg, force, 0)
}

#[test]
fn ticks_show_hide_and_idle() {
    let mut cfg: Config<f32> = Config::fresh(2.5, 2.5, 2.5);
    cfg.overlay_meter.enabled = true;
    cfg.meter_idle_secs = 10;
    cfg.meter_max_rows = 0;
    let cs = state();
    let mut m = meter(&cfg, false);
    assert_eq!(m.max_rows, 1);
    let mut pinned = Some(99);
    let mut open = true;
    match m.tick(&cs, &mut pinned, &mut open, MeterTab::Dps, SEC) {
        MeterAction::Fight { window, mob_id, totals, .. } => {
            assert!(matches!(window, WindowChange::Show));
            assert_eq!(mob_id, 2);
            assert_eq!(totals.footer_total, 300);
        }
        _ => panic!("a fight is shown"),
    }
    assert_eq!(pinned, None); // the stale pin is dropped
    assert!(open);
    assert!(matches!(
        m.tick(&cs, &mut pinned, &mut open, MeterTab::Dps, 11 * SEC),
        MeterAction::Fight { window: WindowChange::Keep, .. }
    ));
    assert!(matches!(
        m.tick(&cs, &mut pinned, &mut open, MeterTab::Dps, 12 * SEC),
        MeterAction::Idle { window: WindowChange::Hide }
    ));
    cfg.overlay_meter.enabled = false;
    m.sync_config(&cfg, false);
    assert!(matches!(
        m.tick(&cs, &mut pinned, &mut open, MeterTab::Dps, 13 * SEC),
        MeterAction::Nothing { window: WindowChange::Keep }
    ));
    assert!(!open);
}

#[test]
fn windows_without_a_fight_are_placeholders() {
    let cfg: Config<f32> = Config::fresh(2.5, 2.5, 2.5);
    let mut cs = state();
    cs.mob_list.clear();
    let mut m = meter(&cfg, true);
    let mut pinned = None;
    let mut open = false;
    assert!(matches!(
        m.tick(&cs, &mut pinned, &mut open, MeterTab::Dps, SEC),
        MeterAction::Placeholder { window: WindowChange::Show, to_top: false }
    ));
    m.tick_count = 24;
    assert!(matches!(
        m.tick(&cs, &mut pinned, &mut open, MeterTab::Dps, SEC),
        MeterAction::Placeholder { window: WindowChange::Keep, to_top: true }
    ));
}

#[test]
fn large_amounts_are_shown_in_millions() {
    assert_eq!(fmt_k(1_000_000), "1M");
    assert_eq!(fmt_k(u64::MAX), "18446744073709.6M");
}
