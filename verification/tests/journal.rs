use froklog::server::journal::{
    batches_of, journal_line, line_of, parse_line, read_line, split_lines, IndexEntry, Journal, LineStamp, RawLine,
};

fn make_journal(entries: &[(u64, Option<u64>)]) -> Journal {
    Journal {
        index: entries
            .iter()
            .map(|&(wall_ts, log_ts)| IndexEntry {
                wall_ts,
                log_ts,
                byte_offset: 0,
            })
            .collect(),
    }
}

/// A journal file that is kept in memory.
struct Disk {
    content: Vec<u8>,
}

impl Disk {
    fn new() -> Self {
        Disk { content: Vec::new() }
    }

    fn open(&self) -> Journal {
        Journal::open(&self.content).unwrap()
    }

    fn append(&mut self, j: &mut Journal, wall: u64, log: Option<u64>, seq: u32, batch: &str) -> bool {
        match journal_line(wall, log, seq, batch) {
            Some(line) => {
                let offset = self.content.len() as u64;
                self.content.extend_from_slice(line.as_bytes());
                j.append(wall, log, offset);
                true
            }
            None => false,
        }
    }

    fn read_at(&self, j: &Journal, pos: usize) -> Option<String> {
        j.read_at(&self.content, pos)
    }
}

// ── len / is_empty ──────────────────────────────────────────────────────────

#[test]
fn len_empty() {
    assert_eq!(make_journal(&[]).len(), 0);
}

#[test]
fn is_empty_true() {
    assert!(make_journal(&[]).is_empty());
}

#[test]
fn len_nonempty() {
    assert_eq!(make_journal(&[(1, None), (2, None)]).len(), 2);
}

#[test]
fn is_empty_false() {
    assert!(!make_journal(&[(1, None)]).is_empty());
}

// ── first_ts / last_ts ──────────────────────────────────────────────────────

#[test]
fn first_ts_empty() {
    assert_eq!(make_journal(&[]).first_ts(), None);
}

#[test]
fn last_ts_empty() {
    assert_eq!(make_journal(&[]).last_ts(), None);
}

#[test]
fn first_last_ts() {
    let j = make_journal(&[(100, None), (200, None), (300, None)]);
    assert_eq!(j.first_ts(), Some(100));
    assert_eq!(j.last_ts(), Some(300));
}

// ── log_first_ts / log_last_ts ──────────────────────────────────────────────

#[test]
fn log_ts_falls_back_to_wall_ts() {
    let j = make_journal(&[(100, None)]);
    assert_eq!(j.log_first_ts(), Some(100));
    assert_eq!(j.log_last_ts(), Some(100));
}

#[test]
fn log_ts_uses_log_ts_when_present() {
    let j = make_journal(&[(100, Some(50)), (200, Some(150))]);
    assert_eq!(j.log_first_ts(), Some(50));
    assert_eq!(j.log_last_ts(), Some(150));
}

// ── ts_at / log_ts_at ───────────────────────────────────────────────────────

#[test]
fn ts_at_valid() {
    let j = make_journal(&[(10, None), (20, None)]);
    assert_eq!(j.ts_at(0), Some(10));
    assert_eq!(j.ts_at(1), Some(20));
}

#[test]
fn ts_at_out_of_range() {
    assert_eq!(make_journal(&[]).ts_at(0), None);
}

#[test]
fn log_ts_at_fallback() {
    let j = make_journal(&[(10, None)]);
    assert_eq!(j.log_ts_at(0), Some(10)); // falls back to wall_ts
}

#[test]
fn log_ts_at_explicit() {
    let j = make_journal(&[(10, Some(5))]);
    assert_eq!(j.log_ts_at(0), Some(5));
}

// ── seek_index ──────────────────────────────────────────────────────────────

#[test]
fn seek_index_empty() {
    assert_eq!(make_journal(&[]).seek_index(100), 0);
}

#[test]
fn seek_index_before_all() {
    let j = make_journal(&[(100, None), (200, None), (300, None)]);
    assert_eq!(j.seek_index(50), 0);
}

#[test]
fn seek_index_exact_match() {
    let j = make_journal(&[(100, None), (200, None), (300, None)]);
    assert_eq!(j.seek_index(200), 1);
}

#[test]
fn seek_index_between_entries() {
    let j = make_journal(&[(100, None), (200, None), (300, None)]);
    assert_eq!(j.seek_index(150), 1); // first entry >= 150 is at index 1 (wall_ts=200)
}

#[test]
fn seek_index_after_all() {
    let j = make_journal(&[(100, None), (200, None)]);
    assert_eq!(j.seek_index(999), 2); // past the end
}

// ── seek_index_by_log_ts ────────────────────────────────────────────────────

#[test]
fn seek_by_log_ts_empty() {
    assert_eq!(make_journal(&[]).seek_index_by_log_ts(100), 0);
}

#[test]
fn seek_by_log_ts_exact() {
    let j = make_journal(&[(100, Some(10)), (200, Some(20)), (300, Some(30))]);
    assert_eq!(j.seek_index_by_log_ts(20), 1);
}

#[test]
fn seek_by_log_ts_fallback_to_wall() {
    // entries without log_ts fall back to wall_ts
    let j = make_journal(&[(100, None), (200, None)]);
    assert_eq!(j.seek_index_by_log_ts(150), 1);
}

#[test]
fn seek_by_log_ts_past_end() {
    let j = make_journal(&[(100, Some(10))]);
    assert_eq!(j.seek_index_by_log_ts(999), 1);
}

// ── open / append / read_at ─────────────────────────────────────────────────

#[test]
fn append_and_read_at() {
    let mut disk = Disk::new();
    let mut j = disk.open();
    assert!(j.is_empty());

    let batch_json = r#"{"seq":0,"events":[]}"#;
    assert!(disk.append(&mut j, 1000, Some(900), 0, batch_json));
    assert_eq!(j.len(), 1);
    assert_eq!(j.first_ts(), Some(1000));

    let content = disk.read_at(&j, 0).unwrap();
    // what is read is the batch field, not the full journal line
    let parsed: serde_json::Value = serde_json::from_str(&content).unwrap();
    assert_eq!(parsed["seq"].as_u64().unwrap(), 0);
}

#[test]
fn append_multiple_and_seek() {
    let mut disk = Disk::new();
    let mut j = disk.open();

    assert!(disk.append(&mut j, 100, Some(10), 0, r#"{"seq":0,"events":[]}"#));
    assert!(disk.append(&mut j, 200, Some(20), 1, r#"{"seq":1,"events":[]}"#));
    assert!(disk.append(&mut j, 300, Some(30), 2, r#"{"seq":2,"events":[]}"#));

    assert_eq!(j.len(), 3);
    assert_eq!(j.seek_index(200), 1);
    assert_eq!(j.seek_index_by_log_ts(20), 1);
    assert_eq!(j.last_ts(), Some(300));
}

#[test]
fn open_reloads_from_disk() {
    let mut disk = Disk::new();
    {
        let mut j = disk.open();
        assert!(disk.append(&mut j, 500, None, 0, r#"{"seq":0,"events":[]}"#));
        assert!(disk.append(&mut j, 600, None, 1, r#"{"seq":1,"events":[]}"#));
    }
    // Re-open and verify the index is rebuilt
    let j2 = disk.open();
    assert_eq!(j2.len(), 2);
    assert_eq!(j2.first_ts(), Some(500));
    assert_eq!(j2.last_ts(), Some(600));
}

#[test]
fn read_at_out_of_range() {
    let disk = Disk::new();
    let j = disk.open();
    assert!(disk.read_at(&j, 0).is_none());
}

#[test]
fn stored_batches_lose_their_white_space() {
    let line = journal_line(7, None, 3, " { \"a\" : [ 1 ,\n 2 ] } ").unwrap();
    assert_eq!(
        line,
        "{\"wall_ts\":7,\"log_ts\":null,\"seq\":3,\"batch\":{\"a\":[1,2]}}\n"
    );
}

#[test]
fn what_is_no_json_is_not_stored() {
    let mut disk = Disk::new();
    let mut j = disk.open();
    assert!(!disk.append(&mut j, 1, None, 0, "{\"seq\":"));
    assert!(j.is_empty());
    assert!(disk.content.is_empty());
}

#[test]
fn broken_lines_are_passed_over() {
    let mut disk = Disk::new();
    let mut j = disk.open();
    assert!(disk.append(&mut j, 1, Some(5), 0, "[]"));
    disk.content.extend_from_slice(b"\nnot a line\n");
    let at = disk.content.len() as u64;
    assert!(disk.append(&mut j, 2, Some(6), 1, "[1]"));
    let j2 = disk.open();
    assert_eq!(j2.len(), 2);
    assert_eq!(j2.index[1].byte_offset, at);
    assert_eq!(disk.read_at(&j2, 1).unwrap(), "[1]");
}

#[test]
fn bursts_stop_at_the_end() {
    let mut disk = Disk::new();
    let mut j = disk.open();
    for k in 0..5u32 {
        assert!(disk.append(&mut j, k as u64, None, k, &format!("[{}]", k)));
    }
    let burst = j.read_burst(&disk.content, 3, 10);
    assert_eq!(burst, vec!["[3]", "[4]"]);
    assert_eq!(j.read_burst(&disk.content, 0, 2), vec!["[0]", "[1]"]);
    assert!(j.read_burst(&disk.content, 5, 2).is_empty());
    assert_eq!(j.burst_len(3, 10), 2);
    assert_eq!(j.burst_len(9, 10), 0);
}

#[test]
fn bursts_pass_over_broken_lines() {
    let mut disk = Disk::new();
    let mut j = disk.open();
    assert!(disk.append(&mut j, 1, None, 0, "[]"));
    disk.content.extend_from_slice(b"broken\n\n");
    assert!(disk.append(&mut j, 2, None, 1, "[1]"));
    assert_eq!(j.read_burst(&disk.content, 0, 9), vec!["[]", "[1]"]);
    assert_eq!(disk.open().read_burst(&disk.content, 0, 9), vec!["[]", "[1]"]);
    // an entry whose own line is gone ends the burst
    disk.content[0] = b'x';
    assert!(j.read_burst(&disk.content, 0, 9).is_empty());
}

#[test]
fn seeks_out_of_order_halve() {
    let j = make_journal(&[(100, Some(50)), (200, Some(10)), (300, Some(60))]);
    assert_eq!(j.seek_index_by_log_ts(40), 2);
    let j = make_journal(&[(1, Some(9)), (2, Some(1)), (3, Some(1)), (4, Some(1))]);
    assert_eq!(j.seek_index_by_log_ts(5), 4);
}

#[test]
fn written_lines_are_read_as_they_were_written() {
    let line = journal_line(7, Some(6), 3, " {\"b\": \"x\\n\", \"a\": 1} ").unwrap();
    let read = parse_line(&line).unwrap();
    assert_eq!((read.wall_ts, read.log_ts, read.seq), (7, Some(6), 3));
    assert_eq!(read.batch, "{\"a\":1,\"b\":\"x\\n\"}");
    let line = journal_line(u64::MAX, None, u32::MAX, "null").unwrap();
    let read = read_line(&line.into_bytes()).unwrap();
    assert_eq!((read.wall_ts, read.log_ts, read.seq), (u64::MAX, None, u32::MAX));
    assert_eq!(read.batch, "null");
}

#[test]
fn lines_need_their_members() {
    assert!(parse_line("{\"wall_ts\":1,\"seq\":2,\"batch\":[]} \r\n").is_some());
    assert!(parse_line("{\"seq\":2,\"batch\":[]}").is_none());
    assert!(parse_line("{\"wall_ts\":1,\"batch\":[]}").is_none());
    assert!(parse_line("{\"wall_ts\":1,\"seq\":2}").is_none());
    assert!(parse_line("{\"wall_ts\":-1,\"seq\":2,\"batch\":[]}").is_none());
    assert!(parse_line("{\"wall_ts\":1,\"seq\":4294967296,\"batch\":[]}").is_none());
    assert!(parse_line("{\"wall_ts\":1,\"log_ts\":\"x\",\"seq\":2,\"batch\":[]}").is_none());
    assert!(parse_line("").is_none());
    // the members can stand in a list
    let list = parse_line("[1, null, 2, {\"a\": 3}]\n").unwrap();
    assert_eq!((list.wall_ts, list.log_ts, list.seq), (1, None, 2));
    assert_eq!(list.batch, "{\"a\":3}");
    assert!(parse_line("[1, null, 2]").is_none());
    assert!(parse_line("[1, null, 2, [], 5]").is_none());
    let raw = RawLine {
        wall_ts: Some(1),
        log_null: false,
        log_ts: None,
        seq: Some(2),
        batch: Some("[]".to_string()),
    };
    assert!(line_of(raw).is_none());
}

#[test]
fn files_that_are_no_text_are_no_journals() {
    assert!(Journal::open(&vec![b'\n', 0xFF]).is_none());
    assert!(read_line(&vec![0xC3, 0x28]).is_none());
    let lines = split_lines(&b"a\nbc\n".to_vec());
    let stamps = vec![None, Some(LineStamp { wall_ts: 4, log_ts: None })];
    assert_eq!(Journal::indexed(&lines, &stamps).index[0].byte_offset, 2);
}

#[test]
fn members_count_once_and_others_are_passed_over() {
    let with = |more: &str| parse_line(&format!("{{\"wall_ts\":1,\"seq\":2,\"batch\":[]{more}}}"));
    assert!(with("").is_some());
    // a member that occurs twice
    assert!(with(",\"seq\":2").is_none());
    assert!(with(",\"log_ts\":null,\"log_ts\":null").is_none());
    assert!(with(",\"\\u0073eq\":2").is_none());
    // others, however often, however deep and however large
    assert!(with(",\"x\":1,\"x\":2").is_some());
    let deep = format!(",\"x\":{}{}", "[".repeat(300), "]".repeat(300));
    assert!(with(&deep).is_some());
    assert!(with(",\"x\":1e999").is_some());
    // what is no object
    assert!(with(",").is_none());
    assert!(with(",\"x\"").is_none());
    assert!(with(",x:1").is_none());
    assert!(with(",\"x\":1}").is_none());
    assert!(with(" , \"\\u006cog_ts\" : 7 ").is_some_and(|l| l.log_ts == Some(7)));
    // a batch nested as deep as it can be, and deeper
    let nested = |n: usize| {
        let b = format!("{}{}", "[".repeat(n), "]".repeat(n));
        parse_line(&format!("{{\"wall_ts\":1,\"seq\":2,\"batch\":{b}}}"))
    };
    assert!(nested(126).is_some());
    assert!(nested(127).is_none());
    assert!(parse_line("  {\"wall_ts\":01,\"seq\":2,\"batch\":[]}").is_none());
    assert!(parse_line("  {\"wall_ts\":1.0,\"seq\":2,\"batch\":[]}").is_none());
}

#[test]
fn batches_come_up_to_a_broken_line() {
    let line = |n: u32| journal_line(1, None, n, &n.to_string()).unwrap().into_bytes();
    assert_eq!(batches_of(&vec![line(1), line(2)]), vec!["1", "2"]);
    assert_eq!(batches_of(&vec![line(1), b"{".to_vec(), line(2)]), vec!["1"]);
    assert!(batches_of(&vec![]).is_empty());
}
