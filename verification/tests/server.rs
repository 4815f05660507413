use froklog::event::{CombatEvent, EventBatch};
use froklog::server::access::{
    admin_allowed, client_ip, create_stream, created_entry, extract_bearer, ingest_allowed,
    is_valid_view_token, number_setting, rate_limits, stats_access, stream_stats, tokens_match,
    view_path, Access, AdminQuery, ServerState, ViewQuery,
};
use froklog::server::admin::{
    format_duration, format_size, format_ts, game_display_name, group_streams, html_escape,
    render_panel, shown_or_dash, FlatStream, StreamDisplay, DASH,
};
use froklog::server::ingest::{
    cut_session, login_ts, plan_batch, reconnect_starts_session, split_by_log_time,
};
use froklog::server::journal::{IndexEntry, Journal};
use froklog::server::streams::{StreamEntry, StreamRegistry};
use froklog::server::viewer::{
    after_burst, after_live_check, after_replayed, current_position, handle_client_msg,
    initial_mode, next_action, render_page, timeline_info, wrap_batch, ClientMsg, ServerMsg,
    ViewerAction, ViewerMode, CATCHUP_BURST,
};

fn s(t: &str) -> String {
    t.to_string()
}

fn journal(walls: &[u64]) -> Journal {
    Journal {
        index: walls
            .iter()
            .map(|&w| IndexEntry {
                wall_ts: w,
                log_ts: Some(w / 10),
                byte_offset: 0,
            })
            .collect(),
    }
}

// ── Access ──────────────────────────────────────────────────────────────────

#[test]
fn tokens_have_to_be_equal() {
    assert!(tokens_match("abc", "abc"));
    assert!(!tokens_match("abc", "abd"));
    assert!(!tokens_match("abc", "ab"));
}

#[test]
fn bearers_are_read_from_the_header() {
    assert_eq!(extract_bearer(&Some(s("Bearer tok"))), Some(s("tok")));
    assert_eq!(extract_bearer(&Some(s("Basic tok"))), None);
    assert_eq!(extract_bearer(&None), None);
}

#[test]
fn addresses_come_from_the_proxy_first() {
    assert_eq!(
        client_ip(&Some(s(" 1.2.3.4 , 5.6.7.8")), &Some(s("9.9.9.9")), "7.7.7.7"),
        "1.2.3.4"
    );
    assert_eq!(client_ip(&None, &Some(s("9.9.9.9")), "7.7.7.7"), "9.9.9.9");
    assert_eq!(client_ip(&None, &None, "7.7.7.7"), "7.7.7.7");
}

#[test]
fn empty_passwords_are_none() {
    let open = ServerState::new(s("adm"), Some(s("")));
    assert!(!open.requires_stream_password());
    assert!(open.stream_auth_ok(&None));
    let closed = ServerState::new(s("adm"), Some(s("pw")));
    assert!(closed.requires_stream_password());
    assert!(!closed.stream_auth_ok(&None));
    assert!(!closed.stream_auth_ok(&Some(s("no"))));
    assert!(closed.stream_auth_ok(&Some(s("pw"))));
    assert!(closed.is_admin_token("adm"));
}

#[test]
fn empty_admin_tokens_open_nothing() {
    let state = ServerState::new(s("adm"), None);
    assert!(admin_allowed(&state, &AdminQuery { atok: Some(s("adm")) }));
    assert!(!admin_allowed(&state, &AdminQuery { atok: Some(s("")) }));
    assert!(!admin_allowed(&state, &AdminQuery { atok: None }));
}

#[test]
fn created_streams_open_with_their_tokens() {
    let c = create_stream("0123456789abcdef0123", s("st"), s("vt"), s("Test"), s("Frok"));
    assert_eq!(c.stream_id, "0123456789abcdef");
    assert_eq!(c.view_path, view_path("0123456789abcdef", "vt"));
    let mut reg: StreamRegistry<u8> = StreamRegistry::new();
    reg.insert(created_entry(&c, 1));
    assert!(is_valid_view_token(&reg, &c.stream_id, &ViewQuery { vtok: Some(s("vt")) }));
    assert!(!is_valid_view_token(&reg, &c.stream_id, &ViewQuery { vtok: Some(s("st")) }));
    assert!(ingest_allowed(&reg, &c.stream_id, &Some(s("Bearer st"))));
    assert!(!ingest_allowed(&reg, &c.stream_id, &Some(s("Bearer vt"))));
    assert!(matches!(
        stats_access(&reg, &c.stream_id, &ViewQuery { vtok: Some(s("vt")) }),
        Access::Granted
    ));
    assert!(matches!(
        stats_access(&reg, &c.stream_id, &ViewQuery { vtok: None }),
        Access::Unauthorized
    ));
    assert!(matches!(
        stats_access(&reg, "nope", &ViewQuery { vtok: Some(s("vt")) }),
        Access::NotFound
    ));
}

#[test]
fn stats_tell_the_journals_bounds() {
    let st = stream_stats(&journal(&[10, 20]), true);
    assert_eq!(st.batches, 2);
    assert_eq!(st.first_ts, Some(10));
    assert_eq!(st.last_ts, Some(20));
    assert!(st.client_connected);
}

#[test]
fn settings_that_are_no_numbers_are_defaults() {
    assert_eq!(number_setting(&Some(s("17")), 100, 5), 17);
    assert_eq!(number_setting(&Some(s("x")), 100, 5), 5);
    assert_eq!(number_setting(&Some(s("101")), 100, 5), 5);
    let l = rate_limits(&None, &Some(s("20")), &Some(s("")));
    assert_eq!((l.max_requests, l.window_secs, l.ban_secs), (100, 20, 300));
}

// ── The registry ────────────────────────────────────────────────────────────

fn entry(id: &str, tok: &str, player: &str) -> StreamEntry<u8> {
    StreamEntry::new(s(id), s(tok), s("v"), s("Test"), s(player), 0)
}

#[test]
fn streams_are_found_by_token_and_player() {
    let mut reg: StreamRegistry<u8> = StreamRegistry::new();
    reg.insert(entry("a", "ta", "Frok"));
    reg.insert(entry("b", "tb", "Toad"));
    assert_eq!(reg.find_id_by_token("tb"), Some(s("b")));
    assert_eq!(reg.find_id_by_player("test", "FROK"), Some(s("a")));
    assert_eq!(reg.find_id_by_player("Test", "Nobody"), None);
    assert!(reg.set_connected("a", true));
    assert!(!reg.set_connected("zz", true));
    assert!(reg.get_mut("zz").is_none());
    reg.get_mut("a").unwrap().handle += 1;
    assert_eq!(reg.get("a").unwrap().handle, reg.get("b").map_or(0, |e| e.handle) + 1);
    assert!(reg.get("a").unwrap().client_connected);
    assert_eq!(reg.list().len(), 2);
    assert!(reg.list_admin().iter().any(|i| i.stream_id == "a" && i.connected));
    assert_eq!(reg.remove("a").unwrap().stream_token, "ta");
    assert_eq!(reg.find_id_by_token("ta"), None);
    assert_eq!(reg.find_id_by_player("test", "frok"), None);
    assert!(reg.get("a").is_none());
}

// ── Batches ─────────────────────────────────────────────────────────────────

fn cast(ts: u32) -> CombatEvent {
    CombatEvent::Cast {
        ts,
        src: s("Frok"),
        sp: s("Heal"),
    }
}

#[test]
fn long_batches_are_split_by_log_time() {
    let parts = split_by_log_time(EventBatch {
        seq: 7,
        events: vec![cast(100), cast(130), cast(161), cast(300)],
    });
    let sizes: Vec<usize> = parts.iter().map(|b| b.events.len()).collect();
    assert_eq!(sizes, vec![2, 1, 1]);
    let seqs: Vec<u32> = parts.iter().map(|b| b.seq).collect();
    assert_eq!(seqs, vec![7, 8, 9]);
    let ts: Vec<u32> = parts.iter().flat_map(|b| b.events.iter().map(|e| e.ts())).collect();
    assert_eq!(ts, vec![100, 130, 161, 300]);
}

#[test]
fn short_batches_stay_whole() {
    let parts = split_by_log_time(EventBatch {
        seq: 1,
        events: vec![cast(100), cast(160)],
    });
    assert_eq!(parts.len(), 1);
    assert_eq!(parts[0].max_log_ts(), Some(160));
    assert_eq!(split_by_log_time(EventBatch { seq: 1, events: vec![] }).len(), 1);
}

#[test]
fn logins_cut_sessions() {
    let batch = EventBatch {
        seq: 1,
        events: vec![cast(100), CombatEvent::Login { ts: 105 }],
    };
    assert_eq!(login_ts(&batch), Some(105));
    let plan = plan_batch(batch, 4, Some(2));
    assert_eq!(plan.session, Some((4, 105)));
    let again = plan_batch(
        EventBatch {
            seq: 1,
            events: vec![CombatEvent::Login { ts: 105 }],
        },
        4,
        Some(4),
    );
    assert_eq!(again.session, None);
}

#[test]
fn reconnects_cut_sessions_after_a_gap() {
    assert!(reconnect_starts_session(3, Some(1000), Some(995), 2000, 600));
    assert!(!reconnect_starts_session(3, Some(1000), Some(995), 1500, 600));
    assert!(!reconnect_starts_session(0, Some(1000), Some(995), 2000, 600));
    assert!(!reconnect_starts_session(3, Some(1000), Some(100), 2000, 600));
}

#[test]
fn sessions_are_numbered() {
    let e = cut_session(2, 9, 50, 60, s("label"));
    assert_eq!(e.num, 3);
    assert_eq!((e.start_journal_idx, e.start_log_ts, e.start_wall_ts), (9, 50, 60));
    assert_eq!(e.label, "label");
}

// ── Viewers ─────────────────────────────────────────────────────────────────

#[test]
fn viewers_start_with_the_history() {
    let (mode, action) = next_action(initial_mode::<u8>());
    assert!(matches!(mode, ViewerMode::CatchUp { pos: 0 }));
    assert!(matches!(action, ViewerAction::SendBurst { pos: 0, limit: CATCHUP_BURST }));
}

#[test]
fn seeks_answer_with_the_bounds() {
    let j = journal(&[100, 200, 300]);
    let (mode, reply) = handle_client_msg(ClientMsg::Seek { to_ts: 150, speed: 2u8 }, &j, 0);
    assert!(matches!(mode, ViewerMode::Replay { pos: 1, speed: 2 }));
    assert!(matches!(
        reply,
        Some(ServerMsg::SeekOk { first_ts: Some(_), last_ts: Some(_) })
    ));
    let (mode, _) = handle_client_msg(ClientMsg::<u8>::SeekFullPausedLog { to_log_ts: 25 }, &j, 0);
    assert!(matches!(
        mode,
        ViewerMode::CatchUpTo { pos: 0, target_pos: 2, then_speed: None }
    ));
    let (mode, reply) = handle_client_msg(ClientMsg::<u8>::Pause, &j, 2);
    assert!(matches!(mode, ViewerMode::Paused { pos: 2 }));
    assert!(reply.is_none());
}

#[test]
fn full_seeks_end_where_they_were_asked_to() {
    let (mode, action) = next_action(ViewerMode::CatchUpTo {
        pos: 0,
        target_pos: 2,
        then_speed: Some(4u8),
    });
    assert!(matches!(action, ViewerAction::SendBurst { pos: 0, limit: 2 }));
    let (mode, _) = after_burst(mode, 2, false, true);
    let (mode, action) = next_action(mode);
    assert!(matches!(mode, ViewerMode::Replay { pos: 2, speed: 4 }));
    assert!(matches!(action, ViewerAction::SendOne { pos: 2 }));
}

#[test]
fn exhausted_recordings_are_done() {
    let (mode, msg) = after_burst(ViewerMode::<u8>::CatchUp { pos: 3 }, 2, true, false);
    assert!(matches!(mode, ViewerMode::Paused { pos: 5 }));
    assert!(matches!(msg, Some(ServerMsg::StreamDone)));
    let (mode, msg) = after_burst(ViewerMode::<u8>::CatchUp { pos: 3 }, 2, true, true);
    assert!(matches!(mode, ViewerMode::Live));
    assert!(msg.is_none());
}

#[test]
fn replays_go_on_or_end() {
    let j = journal(&[100, 200]);
    let (mode, wait, msg) = after_replayed(0, 1u8, true, true, &j);
    assert!(matches!(mode, ViewerMode::Replay { pos: 1, .. }));
    assert_eq!(wait, Some(10));
    assert!(msg.is_none());
    let (mode, _) = after_live_check::<u8>(true, &j);
    assert!(matches!(mode, ViewerMode::Live));
    assert_eq!(current_position(&ViewerMode::<u8>::Live, &j), 2);
}

#[test]
fn timelines_and_batches_are_framed() {
    assert!(matches!(
        timeline_info(&journal(&[100, 200]), true),
        ServerMsg::Info { batch_count: 2, is_live: true, log_first_ts: Some(10), .. }
    ));
    let framed = wrap_batch("{\"seq\":1}");
    let value: serde_json::Value = serde_json::from_str(&framed).unwrap();
    assert_eq!(value["t"], "batch");
    assert_eq!(value["batch"]["seq"], 1);
}

#[test]
fn pages_are_filled_in() {
    let page = render_page(
        "<h1>__PLAYER_NAME__</h1>__STREAM_ID__?__VIEW_TOKEN__ __STREAM_ID__",
        "id1",
        "vt",
        "Frok",
    );
    assert_eq!(page, "<h1>Frok</h1>id1?vt id1");
}

// ── The admin panel ─────────────────────────────────────────────────────────

fn flat(game: &str, server: &str, player: &str, id: &str, last: u64) -> FlatStream {
    FlatStream {
        game: s(game),
        server: s(server),
        player: s(player),
        display: StreamDisplay {
            stream_id: s(id),
            view_token: s("v"),
            connected: false,
            public_stream: true,
            first_ts: Some(last - 10),
            last_ts: Some(last),
            batches: 3,
            file_bytes: 2048,
        },
    }
}

#[test]
fn streams_are_grouped_newest_first() {
    let games = group_streams(vec![
        flat("eql", "Test", "Frok", "a", 100),
        flat("eql", "Test", "Toad", "b", 300),
        flat("eql", "Test", "Frok", "c", 200),
    ]);
    assert_eq!(games.len(), 1);
    let players = &games[0].servers[0].players;
    assert_eq!(players.len(), 2);
    assert_eq!(players[0].label, "Toad");
    let ids: Vec<&str> = players[1].streams.iter().map(|d| d.stream_id.as_str()).collect();
    assert_eq!(ids, vec!["c", "a"]);
}

#[test]
fn panels_show_every_stream_and_escape_names() {
    let page = render_panel(vec![flat("eql", "Test", "<b>", "a", 100), flat("eql", "X", "y", "b", 90)]);
    assert!(page.contains("&lt;b&gt;"));
    assert!(!page.contains("<b>"));
    assert_eq!(page.matches("class=\"stream-row").count(), 2);
    assert_eq!(html_escape("<a href=\"x\">&"), "&lt;a href=&quot;x&quot;&gt;&amp;");
}

#[test]
fn durations_have_two_units() {
    assert_eq!(format_duration(None), DASH);
    assert_eq!(format_duration(Some(59)), "59s");
    assert_eq!(format_duration(Some(61)), "1m 1s");
    assert_eq!(format_duration(Some(3_660)), "1h 1m");
    assert_eq!(format_duration(Some(90_000)), "1d 1h");
}

#[test]
fn sizes_have_one_decimal() {
    assert_eq!(format_size(1023), "1023 B");
    assert_eq!(format_size(1536), "1.5 KB");
    assert_eq!(format_size(1024 * 1024 * 5 / 2), "2.5 MB");
    for n in [1024u64, 1075, 1076, 99_999, 1_048_575] {
        assert_eq!(format_size(n), format!("{:.1} KB", n as f64 / 1024.0));
    }
    for n in [1_048_576u64, 12_345_678, u64::MAX, (1 << 53) + 1] {
        assert_eq!(format_size(n), format!("{:.1} MB", n as f64 / (1024.0 * 1024.0)));
    }
}

#[test]
fn times_are_shown_in_universal_time() {
    assert_eq!(format_ts(Some(0)), "1970-01-01 00:00 UTC");
    assert_eq!(format_ts(Some(1_700_000_000)), "2023-11-14 22:13 UTC");
    assert_eq!(format_ts(None), DASH);
    assert_eq!(shown_or_dash(None), DASH);
}

#[test]
fn games_have_names() {
    assert_eq!(game_display_name("zzz"), "zzz");
    assert!(!game_display_name("eql").is_empty());
}

#[test]
fn escaped_texts_can_be_read_back() {
    let words = "a & b &amp; <\"c\">";
    let escaped = html_escape(words);
    assert_eq!(escaped, format!("{}{}", html_escape("a & b "), html_escape("&amp; <\"c\">")));
    assert!(!escaped.contains(['<', '>', '"']));
    let back = escaped
        .replace("&lt;", "<")
        .replace("&gt;", ">")
        .replace("&quot;", "\"")
        .replace("&amp;", "&");
    assert_eq!(back, words);
}

#[test]
fn empty_journals_are_not_cut() {
    assert!(!reconnect_starts_session(3, None, None, 10_000, 0));
    assert!(!reconnect_starts_session(3, None, Some(5), 10_000, 1800));
    assert!(reconnect_starts_session(3, Some(5), None, 10_000, 1800));
}

#[test]
fn silent_viewers_are_sent_everything_once() {
    for len in [0usize, 1, 31, 32, 33, 64, 100] {
        for connected in [false, true] {
            let mut mode: ViewerMode<u8> = initial_mode();
            let mut sent = Vec::new();
            let mut told = Vec::new();
            for _ in 0..len / 32 + 3 {
                let (current, action) = next_action(mode);
                mode = current;
                if let ViewerAction::SendBurst { pos, limit } = action {
                    let n = limit.min(len.saturating_sub(pos));
                    sent.extend(pos..pos + n);
                    let (next, msg) = after_burst(mode, n, n < limit, connected);
                    mode = next;
                    told.extend(msg);
                }
            }
            assert_eq!(sent, (0..len).collect::<Vec<usize>>());
            if connected {
                assert!(told.is_empty() && matches!(mode, ViewerMode::Live));
            } else {
                assert!(matches!(told[..], [ServerMsg::StreamDone]));
                assert!(matches!(mode, ViewerMode::Paused { pos } if pos == len));
            }
        }
    }
}
