//! The journal of a stream: one line for each batch of events, and an index
//! that finds a batch by the time at which it was received or logged.
//!
//! The journal's file is a sequence of bytes, cut into lines after each line
//! feed. Each line is a JSON object:
//! `{"wall_ts":<unix seconds>,"log_ts":<unix seconds or null>,"seq":<number>,"batch":<batch>}`.
use vstd::prelude::*;

use crate::text;

verus! {

/// What `serde_json` makes of a JSON text: the text read as a value and written
/// out again without white space, or nothing where the text is no JSON.
pub uninterp spec fn compact_json(s: Seq<char>) -> Option<Seq<char>>;

/// `serde_json::from_str::<Value>` followed by `Value::to_string`: the same value in the notation
/// without white space, or nothing where the text is no JSON value. The notation holds no line
/// feed: outside of strings there is no white space, and within them control characters are
/// escaped. It begins with the value itself.
#[verifier::external_body]
fn compact(s: &str) -> (r: Option<String>)
    ensures
        text::opt_view(r) == compact_json(s@),
        r is Some ==> !text::has_char(r->0@, '\n'),
        r is Some ==> r->0@.len() > 0 && !is_json_space(r->0@[0]),
{
    match serde_json::from_str::<serde_json::Value>(s) {
        Ok(value) => Some(value.to_string()),
        Err(_) => None,
    }
}

/// Whether a character is white space between the parts of a JSON text.
pub open spec fn is_json_space(c: char) -> bool {
    c == ' ' || c == '\n' || c == '\t' || c == '\r'
}

/// Whether a text is what `serde_json` writes for a value.
pub open spec fn is_compact(s: Seq<char>) -> bool {
    &&& exists|t: Seq<char>| #[trigger] compact_json(t) == Some(s)
    &&& s.len() > 0
    &&& !is_json_space(s[0])
}

/// One entry in the seek index.
#[derive(Clone, Copy)]
pub struct IndexEntry {
    /// Wall-clock unix seconds when the batch was received by the server.
    pub wall_ts: u64,
    /// Max EQ log-event unix timestamp in this batch, if recorded.
    pub log_ts: Option<u64>,
    /// Where in the file the batch's line starts.
    pub byte_offset: u64,
}

impl IndexEntry {
    /// The log timestamp of the batch, or the time of its receipt where none is recorded.
    pub open spec fn spec_log_ts(&self) -> u64 {
        match self.log_ts {
            Some(t) => t,
            None => self.wall_ts,
        }
    }

    fn log_or_wall(&self) -> (r: u64)
        ensures
            r == self.spec_log_ts(),
    {
        match self.log_ts {
            Some(t) => t,
            None => self.wall_ts,
        }
    }
}

/// The stamps of a journal line: when its batch was received, and the batch's
/// log time where the line records it.
#[derive(Clone, Copy)]
pub struct LineStamp {
    pub wall_ts: u64,
    pub log_ts: Option<u64>,
}

// ── Lines ───────────────────────────────────────────────────────────────────

/// The byte that ends a line.
pub const LINE_FEED: u8 = 10;

/// The lines of a file: each ends after a line feed, the last one perhaps
/// without.
pub open spec fn lines_of(content: Seq<u8>) -> Seq<Seq<u8>>
    decreases content.len(),
{
    if content.len() == 0 {
        Seq::empty()
    } else {
        let before = lines_of(content.drop_last());
        if before.len() > 0 && before.last().last() != LINE_FEED {
            before.update(before.len() - 1, before.last().push(content.last()))
        } else {
            before.push(seq![content.last()])
        }
    }
}

/// The bytes of the lines, one after the other.
pub open spec fn concat(lines: Seq<Seq<u8>>) -> Seq<u8>
    decreases lines.len(),
{
    if lines.len() == 0 {
        Seq::empty()
    } else {
        concat(lines.drop_last()) + lines.last()
    }
}

/// Whether a line is one that a file can hold: it is not empty, and holds no
/// line feed but at its end.
pub open spec fn is_line(line: Seq<u8>) -> bool {
    &&& line.len() > 0
    &&& forall|i: int| 0 <= i < line.len() - 1 ==> #[trigger] line[i] != LINE_FEED
}

/// Whether a line is complete.
pub open spec fn is_ended(line: Seq<u8>) -> bool {
    line.len() > 0 && line.last() == LINE_FEED
}

/// The bytes of each line.
pub open spec fn bytes_of(lines: Seq<Vec<u8>>) -> Seq<Seq<u8>> {
    lines.map_values(|l: Vec<u8>| l@)
}

/// A file is the concatenation of its lines; each is a line, and each but the
/// last is ended.
pub proof fn lines_make_the_file(content: Seq<u8>)
    ensures
        concat(lines_of(content)) == content,
        forall|i: int|
            0 <= i < lines_of(content).len() ==> is_line(#[trigger] lines_of(content)[i]),
        forall|i: int|
            0 <= i < lines_of(content).len() - 1 ==> is_ended(#[trigger] lines_of(content)[i]),
    decreases content.len(),
{
    if content.len() > 0 {
        let t = content.drop_last();
        let c = content.last();
        lines_make_the_file(t);
        let before = lines_of(t);
        let lines = lines_of(content);
        if before.len() > 0 && before.last().last() != LINE_FEED {
            assert(lines.drop_last() =~= before.drop_last());
            assert(concat(lines) =~= concat(before).push(c));
            assert forall|i: int| 0 <= i < lines.len() implies is_line(#[trigger] lines[i]) by {
                if i < lines.len() - 1 {
                    assert(lines[i] == before[i]);
                } else {
                    let l = before.last();
                    assert(is_line(before[before.len() - 1]));
                    assert forall|k: int| 0 <= k < lines[i].len() - 1 implies #[trigger] lines[i][k]
                        != LINE_FEED by {
                        assert(lines[i][k] == l[k]);
                    }
                }
            }
            assert forall|i: int| 0 <= i < lines.len() - 1 implies is_ended(
                #[trigger] lines[i],
            ) by {
                assert(lines[i] == before[i]);
            }
        } else {
            assert(lines.drop_last() =~= before);
            assert(concat(lines) =~= content);
            assert forall|i: int| 0 <= i < lines.len() implies is_line(#[trigger] lines[i]) by {
                if i < before.len() {
                    assert(lines[i] == before[i]);
                }
            }
            assert forall|i: int| 0 <= i < lines.len() - 1 implies is_ended(
                #[trigger] lines[i],
            ) by {
                assert(lines[i] == before[i]);
                if i == before.len() - 1 {
                    assert(is_line(before[i]));
                }
            }
        }
        assert(t.push(c) =~= content);
    }
}

/// Appending a whole line to a file whose last line is ended adds that line.
pub proof fn appended_line(content: Seq<u8>, line: Seq<u8>)
    requires
        is_line(line),
        content.len() > 0 ==> content.last() == LINE_FEED,
    ensures
        lines_of(content + line) == lines_of(content).push(line),
    decreases line.len(),
{
    lines_make_the_file(content);
    let before = lines_of(content);
    if before.len() > 0 {
        assert(concat(before) == content);
        assert(before.last().len() > 0) by {
            assert(is_line(before[before.len() - 1]));
        }
        assert(content.last() == before.last().last());
    } else {
        assert(concat(before) =~= Seq::<u8>::empty());
    }
    let t = line.drop_last();
    assert((content + line).drop_last() =~= content + t);
    assert((content + line).last() == line.last());
    if t.len() == 0 {
        assert(content + t =~= content);
        assert(seq![line.last()] =~= line);
    } else {
        assert forall|i: int| 0 <= i < t.len() - 1 implies #[trigger] t[i] != LINE_FEED by {
            assert(t[i] == line[i]);
        }
        appended_line(content, t);
        assert(t.last() == line[line.len() - 2]);
        let mid = before.push(t);
        assert(mid.update(mid.len() - 1, t.push(line.last())) =~= before.push(line)) by {
            assert(t.push(line.last()) =~= line);
        }
    }
}

/// The lines of a file.
pub fn split_lines(content: &Vec<u8>) -> (r: Vec<Vec<u8>>)
    ensures
        bytes_of(r@) == lines_of(content@),
{
    let mut lines: Vec<Vec<u8>> = Vec::new();
    let mut open: Vec<u8> = Vec::new();
    let mut i: usize = 0;
    let n: usize = content.len();
    proof {
        assert(content@.take(0) =~= Seq::<u8>::empty());
        assert(bytes_of(lines@) =~= Seq::<Seq<u8>>::empty());
    }
    while i < n
        invariant
            n == content@.len(),
            i <= n,
            open@.len() == 0 ==> bytes_of(lines@) == lines_of(content@.take(i as int)),
            open@.len() > 0 ==> bytes_of(lines@).push(open@) == lines_of(content@.take(i as int)),
            open@.len() > 0 ==> open@.last() != LINE_FEED,
            forall|k: int| 0 <= k < lines@.len() ==> is_ended((#[trigger] lines@[k])@),
        decreases n - i,
    {
        let b: u8 = content[i];
        let ghost before = lines_of(content@.take(i as int));
        let ghost old_open = open@;
        let ghost old_lines = lines@;
        proof {
            assert(content@.take(i + 1).drop_last() =~= content@.take(i as int));
            assert(content@.take(i + 1).last() == b);
            if old_open.len() == 0 && before.len() > 0 {
                assert(before.last() == old_lines[old_lines.len() - 1]@);
                assert(is_ended(old_lines[old_lines.len() - 1]@));
            }
        }
        open.push(b);
        proof {
            if old_open.len() == 0 {
                assert(open@ =~= seq![b]);
                assert(lines_of(content@.take(i + 1)) =~= bytes_of(lines@).push(open@));
            } else {
                assert(before.last() == old_open);
                assert(lines_of(content@.take(i + 1)) =~= bytes_of(lines@).push(open@));
            }
        }
        if b == LINE_FEED {
            let ghost done = open@;
            lines.push(open);
            open = Vec::new();
            proof {
                assert(bytes_of(lines@) =~= bytes_of(old_lines).push(done));
                assert forall|k: int| 0 <= k < lines@.len() implies is_ended(
                    (#[trigger] lines@[k])@,
                ) by {
                    if k < old_lines.len() {
                        assert(lines@[k] == old_lines[k]);
                    }
                }
            }
        }
        i += 1;
    }
    proof {
        assert(content@.take(n as int) =~= content@);
    }
    if open.len() > 0 {
        let ghost done = open@;
        let ghost old_lines = lines@;
        lines.push(open);
        proof {
            assert(bytes_of(lines@) =~= bytes_of(old_lines).push(done));
        }
    }
    lines
}

/// The lengths of the lines before line `k`, added up: where line `k` starts.
pub open spec fn offset_of(lines: Seq<Seq<u8>>, k: nat) -> nat
    decreases k,
{
    if k == 0 {
        0
    } else {
        offset_of(lines, (k - 1) as nat) + lines[k - 1].len()
    }
}

/// A line starts where the bytes before it end.
pub proof fn line_stands_at_its_offset(lines: Seq<Seq<u8>>, k: int)
    requires
        0 <= k < lines.len(),
    ensures
        offset_of(lines, k as nat) + lines[k].len() <= concat(lines).len(),
        concat(lines).subrange(
            offset_of(lines, k as nat) as int,
            (offset_of(lines, k as nat) + lines[k].len()) as int,
        ) == lines[k],
    decreases lines.len(),
{
    let t = lines.drop_last();
    offset_of_prefix(lines, t, k as nat);
    if k < t.len() {
        line_stands_at_its_offset(t, k);
        let o = offset_of(lines, k as nat) as int;
        assert(concat(lines).subrange(o, o + lines[k].len()) =~= concat(t).subrange(
            o,
            o + lines[k].len(),
        ));
    } else {
        concat_len(t);
        let o = offset_of(lines, k as nat) as int;
        assert(concat(lines).subrange(o, o + lines[k].len()) =~= lines[k]);
    }
}

/// Offsets depend on the lines before alone.
proof fn offset_of_prefix(a: Seq<Seq<u8>>, b: Seq<Seq<u8>>, k: nat)
    requires
        k <= a.len(),
        k <= b.len(),
        forall|i: int| 0 <= i < k ==> a[i] == b[i],
    ensures
        offset_of(a, k) == offset_of(b, k),
    decreases k,
{
    if k > 0 {
        offset_of_prefix(a, b, (k - 1) as nat);
    }
}

/// The offset after the last line is the length of the file.
pub proof fn concat_len(lines: Seq<Seq<u8>>)
    ensures
        offset_of(lines, lines.len()) == concat(lines).len(),
    decreases lines.len(),
{
    if lines.len() > 0 {
        let t = lines.drop_last();
        concat_len(t);
        offset_of_prefix(lines, t, t.len());
    }
}

/// The bytes from `offset` to the next line feed, or to the end of the file.
pub open spec fn line_from(content: Seq<u8>, offset: int) -> Seq<u8>
    decreases content.len() - offset,
{
    if offset < 0 || offset >= content.len() {
        Seq::empty()
    } else if content[offset] == LINE_FEED {
        seq![content[offset]]
    } else {
        seq![content[offset]] + line_from(content, offset + 1)
    }
}

/// The line that starts at `offset`; empty past the end of the file.
pub fn line_at(content: &Vec<u8>, offset: u64) -> (r: Vec<u8>)
    ensures
        r@ == line_from(content@, offset as int),
{
    let mut line: Vec<u8> = Vec::new();
    let n: usize = content.len();
    if offset >= n as u64 {
        return line;
    }
    let mut i: usize = offset as usize;
    proof {
        assert(line@ + line_from(content@, i as int) =~= line_from(content@, offset as int));
    }
    while i < n
        invariant
            n == content@.len(),
            i <= n,
            line@ + line_from(content@, i as int) == line_from(content@, offset as int),
        decreases n - i,
    {
        let b: u8 = content[i];
        let ghost before = line@;
        line.push(b);
        if b == LINE_FEED {
            proof {
                assert(line@ =~= before + line_from(content@, i as int));
            }
            return line;
        }
        proof {
            assert(line@ + line_from(content@, i + 1) =~= before + line_from(content@, i as int));
        }
        i += 1;
    }
    proof {
        assert(line@ + line_from(content@, i as int) =~= line@);
    }
    line
}

/// What starts with a line, and goes on only where that line is ended, has that
/// line at its start.
proof fn line_from_reads(content: Seq<u8>, offset: int, line: Seq<u8>, i: int)
    requires
        0 <= i < line.len(),
        is_line(line),
        0 <= offset,
        offset + line.len() <= content.len(),
        content.subrange(offset, offset + line.len()) == line,
        is_ended(line) || offset + line.len() == content.len(),
    ensures
        line_from(content, offset + i) == line.skip(i),
    decreases line.len() - i,
{
    assert(content[offset + i] == content.subrange(offset, offset + line.len())[i]);
    if i == line.len() - 1 {
        if content[offset + i] != LINE_FEED {
            assert(line_from(content, offset + i + 1) =~= Seq::<u8>::empty());
        }
        assert(line_from(content, offset + i) =~= line.skip(i));
    } else {
        assert(line[i] != LINE_FEED);
        line_from_reads(content, offset, line, i + 1);
        assert(line_from(content, offset + i) =~= line.skip(i));
    }
}

/// Reading at the offset of a line of the file gives that line back.
pub proof fn read_gives_the_line(content: Seq<u8>, k: int)
    requires
        0 <= k < lines_of(content).len(),
    ensures
        line_from(content, offset_of(lines_of(content), k as nat) as int) == lines_of(content)[k],
{
    let lines = lines_of(content);
    lines_make_the_file(content);
    line_stands_at_its_offset(lines, k);
    let o = offset_of(lines, k as nat) as int;
    assert(is_line(lines[k]));
    if k < lines.len() - 1 {
        assert(is_ended(lines[k]));
    } else {
        concat_len(lines);
        assert(o + lines[k].len() == content.len());
    }
    line_from_reads(content, o, lines[k], 0);
    assert(lines[k].skip(0) =~= lines[k]);
}

// ── The line that is written ────────────────────────────────────────────────

/// The text of an optional number: the number, or `null`.
pub open spec fn number_or_null(n: Option<u64>) -> Seq<char> {
    match n {
        Some(t) => text::decimal(t as nat),
        None => "null"@,
    }
}

/// The JSON object that records a batch whose JSON text is `batch`.
pub open spec fn record_text(wall_ts: u64, log_ts: Option<u64>, seq: u32, batch: Seq<char>) -> Seq<
    char,
> {
    "{\"wall_ts\":"@ + text::decimal(wall_ts as nat) + ",\"log_ts\":"@ + number_or_null(log_ts)
        + ",\"seq\":"@ + text::decimal(seq as nat) + ",\"batch\":"@ + batch + "}"@
}

/// The journal line for a batch whose JSON text is `batch`.
pub open spec fn line_text(wall_ts: u64, log_ts: Option<u64>, seq: u32, batch: Seq<char>) -> Seq<
    char,
> {
    record_text(wall_ts, log_ts, seq, batch) + "\n"@
}

/// The line that stores a batch: its stamps, its number and its JSON text
/// without white space; nothing where `batch_json` is no JSON.
pub fn journal_line(wall_ts: u64, log_ts: Option<u64>, seq: u32, batch_json: &str) -> (r: Option<
    String,
>)
    ensures
        text::opt_view(r) == match compact_json(batch_json@) {
            Some(batch) => Some(line_text(wall_ts, log_ts, seq, batch)),
            None => None,
        },
        r is Some ==> is_line(vstd::utf8::encode_utf8(r->0@)) && is_ended(vstd::utf8::encode_utf8(r->0@)),
        r is Some ==> is_compact(compact_json(batch_json@)->0),
{
    match compact(batch_json) {
        Some(batch) => {
            proof {
                stored_line_is_a_line(wall_ts, log_ts, seq, batch@);
            }
            Some(stored_line(wall_ts, log_ts, seq, batch.as_str()))
        },
        None => None,
    }
}

/// The line that stores a batch whose compact JSON text is `batch`.
pub fn stored_line(wall_ts: u64, log_ts: Option<u64>, seq: u32, batch: &str) -> (r: String)
    ensures
        r@ == line_text(wall_ts, log_ts, seq, batch@),
{
    let mut line: String = "{\"wall_ts\":".to_owned();
    text::push_decimal(&mut line, wall_ts);
    line.append(",\"log_ts\":");
    match log_ts {
        Some(t) => text::push_decimal(&mut line, t),
        None => line.append("null"),
    }
    line.append(",\"seq\":");
    text::push_decimal(&mut line, seq as u64);
    line.append(",\"batch\":");
    line.append(batch);
    line.append("}");
    line.append("\n");
    line
}

/// The bytes of a character other than the line feed hold no line feed.
proof fn scalar_without_line_feed(c: char)
    requires
        c != '\n',
    ensures
        forall|i: int|
            0 <= i < vstd::utf8::encode_scalar(c as u32).len() ==> #[trigger] vstd::utf8::encode_scalar(c as u32)[i]
                != LINE_FEED,
        vstd::utf8::encode_scalar('\n' as u32) == seq![LINE_FEED],
{
    let v = c as u32;
    assert(v != 10);
    assert(v < 0x80 && v != 10 ==> (v & 0x7F) as u8 != 10) by (bit_vector);
    assert(0xC0u8 | ((v >> 6) & 0x1F) as u8 != 10) by (bit_vector);
    assert(0xE0u8 | ((v >> 12) & 0x0F) as u8 != 10) by (bit_vector);
    assert(0xF0u8 | ((v >> 18) & 0x7) as u8 != 10) by (bit_vector);
    assert(0x80u8 | (v & 0x3F) as u8 != 10) by (bit_vector);
    assert(0x80u8 | ((v >> 6) & 0x3F) as u8 != 10) by (bit_vector);
    assert(0x80u8 | ((v >> 12) & 0x3F) as u8 != 10) by (bit_vector);
    assert((10u32 & 0x7F) as u8 == 10) by (bit_vector);
    assert(vstd::utf8::encode_scalar('\n' as u32) =~= seq![LINE_FEED]);
}

/// The bytes of a text without line feed hold no line feed.
proof fn text_without_line_feed(s: Seq<char>)
    requires
        !text::has_char(s, '\n'),
    ensures
        forall|i: int| 0 <= i < vstd::utf8::encode_utf8(s).len() ==> #[trigger] vstd::utf8::encode_utf8(s)[i] != LINE_FEED,
    decreases s.len(),
{
    if s.len() > 0 {
        assert(s[0] != '\n');
        let t = s.drop_first();
        assert(!text::has_char(t, '\n')) by {
            if text::has_char(t, '\n') {
                let k = choose|k: int| 0 <= k < t.len() && t[k] == '\n';
                assert(s[k + 1] == '\n');
            }
        }
        scalar_without_line_feed(s[0]);
        text_without_line_feed(t);
        let a = vstd::utf8::encode_scalar(s[0] as u32);
        let b = vstd::utf8::encode_utf8(t);
        assert forall|i: int| 0 <= i < (a + b).len() implies #[trigger] (a + b)[i]
            != LINE_FEED by {
            if i < a.len() {
                assert((a + b)[i] == a[i]);
            } else {
                assert((a + b)[i] == b[i - a.len()]);
            }
        }
    }
}

/// A line feed at the end of a text is the last of its bytes.
proof fn ended_text(s: Seq<char>)
    ensures
        vstd::utf8::encode_utf8(s.push('\n')) == vstd::utf8::encode_utf8(s).push(LINE_FEED),
    decreases s.len(),
{
    scalar_without_line_feed('a');
    if s.len() == 0 {
        assert(s.push('\n').drop_first() =~= Seq::<char>::empty());
        assert(vstd::utf8::encode_utf8(Seq::<char>::empty()) =~= Seq::<u8>::empty());
        assert(vstd::utf8::encode_utf8(s.push('\n')) =~= vstd::utf8::encode_utf8(s).push(LINE_FEED));
    } else {
        ended_text(s.drop_first());
        assert(s.push('\n').drop_first() =~= s.drop_first().push('\n'));
        assert(s.push('\n')[0] == s[0]);
        assert(vstd::utf8::encode_utf8(s.push('\n')) =~= vstd::utf8::encode_utf8(s).push(LINE_FEED));
    }
}

/// The line that stores a batch is one whole line of the file.
pub proof fn stored_line_is_a_line(wall_ts: u64, log_ts: Option<u64>, seq: u32, batch: Seq<char>)
    requires
        !text::has_char(batch, '\n'),
    ensures
        is_line(vstd::utf8::encode_utf8(line_text(wall_ts, log_ts, seq, batch))),
        is_ended(vstd::utf8::encode_utf8(line_text(wall_ts, log_ts, seq, batch))),
{
    reveal_strlit("{\"wall_ts\":");
    reveal_strlit(",\"log_ts\":");
    reveal_strlit("null");
    reveal_strlit(",\"seq\":");
    reveal_strlit(",\"batch\":");
    reveal_strlit("}");
    reveal_strlit("\n");
    text::decimal_denotes(wall_ts as nat);
    text::decimal_denotes(seq as nat);
    if log_ts is Some {
        text::decimal_denotes(log_ts->0 as nat);
    }
    let body = record_text(wall_ts, log_ts, seq, batch);
    assert(body.push('\n') =~= line_text(wall_ts, log_ts, seq, batch));
    assert(!text::has_char(number_or_null(log_ts), '\n'));
    assert(!text::has_char(body, '\n'));
    ended_text(body);
    text_without_line_feed(body);
}

// ── The line that is read ───────────────────────────────────────────────────

/// The members of a JSON object that a journal line can have.
pub struct RawLine {
    pub wall_ts: Option<u64>,
    /// Whether there is no log timestamp, or `null` in its place.
    pub log_null: bool,
    pub log_ts: Option<u64>,
    pub seq: Option<u64>,
    /// The batch, as JSON without white space.
    pub batch: Option<String>,
}

/// What the members hold.
pub struct RawLineView {
    pub wall_ts: Option<u64>,
    pub log_null: bool,
    pub log_ts: Option<u64>,
    pub seq: Option<u64>,
    pub batch: Option<Seq<char>>,
}

impl View for RawLine {
    type V = RawLineView;

    open spec fn view(&self) -> RawLineView {
        RawLineView {
            wall_ts: self.wall_ts,
            log_null: self.log_null,
            log_ts: self.log_ts,
            seq: self.seq,
            batch: text::opt_view(self.batch),
        }
    }
}

/// A journal line: when its batch was received and logged, its number, and the
/// batch as JSON without white space.
pub struct JournalLine {
    pub wall_ts: u64,
    pub log_ts: Option<u64>,
    pub seq: u32,
    pub batch: String,
}

/// What a journal line holds.
pub struct LineView {
    pub wall_ts: u64,
    pub log_ts: Option<u64>,
    pub seq: u32,
    pub batch: Seq<char>,
}

impl View for JournalLine {
    type V = LineView;

    open spec fn view(&self) -> LineView {
        LineView {
            wall_ts: self.wall_ts,
            log_ts: self.log_ts,
            seq: self.seq,
            batch: self.batch@,
        }
    }
}

/// What was read, if anything was.
pub open spec fn opt_line(l: Option<JournalLine>) -> Option<LineView> {
    match l {
        Some(l) => Some(l@),
        None => None,
    }
}

// ── The members of an object ────────────────────────────────────────────────

/// A member of a JSON object: its name, and the JSON text of its value.
pub struct Member {
    pub name: String,
    pub value: String,
}

/// What members hold.
pub open spec fn member_views(v: Seq<Member>) -> Seq<(Seq<char>, Seq<char>)> {
    v.map_values(|m: Member| (m.name@, m.value@))
}

/// How many characters the JSON value at the start of a text has, by
/// `serde_json`; nothing where none stands there.
pub uninterp spec fn value_len(text: Seq<char>) -> Option<nat>;

/// Whether a text is a JSON string of characters that stand for themselves.
pub open spec fn is_plain_string(v: Seq<char>) -> bool {
    &&& v.len() >= 2
    &&& v[0] == '"' && v.last() == '"'
    &&& forall|i: int| 1 <= i < v.len() - 1 ==> is_plain_char(#[trigger] v[i])
}

/// Whether a character stands for itself in a JSON string.
pub open spec fn is_plain_char(c: char) -> bool {
    c != '"' && c != '\\' && c as u32 >= 0x20
}

/// Whether a text is one of the JSON values that records are made of: a string of
/// characters that stand for themselves, a number, `null`, or what `serde_json`
/// writes.
pub open spec fn is_record_value(v: Seq<char>) -> bool {
    ||| is_plain_string(v)
    ||| exists|n: u64| v == #[trigger] text::decimal(n as nat)
    ||| v == "null"@
    ||| is_compact(v)
}

/// Whether a text begins with what can follow a value within an object.
pub open spec fn goes_on(s: Seq<char>) -> bool {
    s.len() > 0 && (s[0] == ':' || s[0] == ',' || s[0] == '}')
}

/// A text that is cut behind a value.
struct Split {
    value: String,
    rest: String,
}

/// A member, and the text behind it.
struct Taken {
    member: Member,
    rest: String,
}

/// The first value of `serde_json::Deserializer::from_str(..).into_iter::<IgnoredAny>()`, and
/// `StreamDeserializer::byte_offset` after it: the text up to the end of the JSON value that
/// stands at its start, and the rest. Values are passed over however deep they are nested and
/// however large their numbers are. Where the value ends depends on the text alone. A value that
/// records are made of ends where a colon, a comma or a closing brace follows it.
#[verifier::external_body]
fn split_value(s: &str) -> (r: Option<Split>)
    ensures
        match r {
            Some(p) => p.value@ + p.rest@ == s@ && value_len(s@) == Some(p.value@.len()),
            None => value_len(s@) is None,
        },
        forall|v: Seq<char>, rest: Seq<char>|
            s@ == #[trigger] (v + rest) && is_record_value(v) && goes_on(rest) ==> r is Some
                && r->0.value@ == v,
{
    let mut values = serde_json::Deserializer::from_str(s).into_iter::<serde::de::IgnoredAny>();
    values.next()?.ok()?;
    let n: usize = values.byte_offset();
    Some(Split { value: s[..n].to_owned(), rest: s[n..].to_owned() })
}

/// What `serde_json` reads in a text as a string, or nothing where it is none.
pub uninterp spec fn json_string(text: Seq<char>) -> Option<Seq<char>>;

/// `serde_json::from_str` into a `String`: what it reads depends on the text alone. Characters
/// that stand for themselves are read as they are.
#[verifier::external_body]
fn read_string(s: &str) -> (r: Option<String>)
    ensures
        text::opt_view(r) == json_string(s@),
        is_plain_string(s@) ==> text::opt_view(r) == Some(s@.subrange(1, s@.len() - 1)),
{
    serde_json::from_str(s).ok()
}

/// What `serde_json` makes of the JSON text of a member: the value without white
/// space, or nothing where it is none or nested too deep.
pub uninterp spec fn member_json(text: Seq<char>) -> Option<Seq<char>>;

/// `serde_json::from_str` of the text within brackets into a tuple of one `Value`, and
/// `Value::to_string`: the value of a member, which may be nested as deep as within an object.
/// What it reads depends on the text alone; where something is read, it is what is read of the
/// text on its own.
#[verifier::external_body]
fn read_member(s: &str) -> (r: Option<String>)
    ensures
        text::opt_view(r) == member_json(s@),
        r is Some ==> text::opt_view(r) == compact_json(s@),
{
    let value: (serde_json::Value,) = serde_json::from_str(&format!("[{s}]")).ok()?;
    Some(value.0.to_string())
}

/// A text without the white space at its start.
pub open spec fn unspaced(s: Seq<char>) -> Seq<char>
    decreases s.len(),
{
    if s.len() > 0 && is_json_space(s[0]) {
        unspaced(s.skip(1))
    } else {
        s
    }
}

fn unspace(s: &str) -> (r: String)
    ensures
        r@ == unspaced(s@),
        r@.len() <= s@.len(),
{
    let v = text::chars_of(s);
    let mut i: usize = 0;
    proof {
        assert(s@.skip(0) =~= s@);
    }
    while i < v.len() && (v[i] == ' ' || v[i] == '\n' || v[i] == '\t' || v[i] == '\r')
        invariant
            v@ == s@,
            i <= v@.len(),
            unspaced(s@.skip(i as int)) == unspaced(s@),
        decreases v@.len() - i,
    {
        proof {
            assert(s@.skip(i as int).skip(1) =~= s@.skip(i + 1));
            assert(s@.skip(i as int)[0] == s@[i as int]);
        }
        i += 1;
    }
    let r = text::string_of_range(&v, i, v.len());
    proof {
        assert(r@ =~= s@.skip(i as int));
        if i < v@.len() {
            assert(s@.skip(i as int)[0] == s@[i as int]);
        }
    }
    r
}

/// A text that begins with one character, without it and the white space behind
/// it; nothing where it begins otherwise.
pub open spec fn behind(s: Seq<char>, c: char) -> Option<Seq<char>> {
    if s.len() > 0 && s[0] == c {
        Some(unspaced(s.skip(1)))
    } else {
        None
    }
}

fn pass(s: &str, c: char) -> (r: Option<String>)
    ensures
        text::opt_view(r) == behind(s@, c),
        r is Some ==> r->0@.len() < s@.len(),
{
    let v = text::chars_of(s);
    if v.len() > 0 && v[0] == c {
        let rest = text::string_of_range(&v, 1, v.len());
        proof {
            assert(rest@ =~= s@.skip(1));
        }
        Some(unspace(rest.as_str()))
    } else {
        None
    }
}

/// The member at the start of a text, and what stands behind it without white
/// space.
pub open spec fn member_at(s: Seq<char>) -> Option<((Seq<char>, Seq<char>), Seq<char>)> {
    if s.len() == 0 || s[0] != '"' {
        None
    } else {
        match value_len(s) {
            None => None,
            Some(n) => match (json_string(s.take(n as int)), behind(unspaced(s.skip(n as int)), ':')) {
                (Some(name), Some(v)) => match value_len(v) {
                    None => None,
                    Some(m) => Some(
                        ((name, v.take(m as int)), unspaced(v.skip(m as int))),
                    ),
                },
                _ => None,
            },
        }
    }
}

/// The members from `s` on, of an object whose text goes on with `s`, where no
/// white space stands; nothing where the object is not closed there, or
/// something follows it. `first` tells whether no member stands before them.
pub open spec fn members_from(s: Seq<char>, first: bool) -> Option<Seq<(Seq<char>, Seq<char>)>>
    decreases s.len(),
{
    if s.len() > 0 && s[0] == '}' {
        if unspaced(s.skip(1)).len() == 0 {
            Some(Seq::empty())
        } else {
            None
        }
    } else {
        match if first {
            Some(s)
        } else {
            behind(s, ',')
        } {
            None => None,
            Some(t) => match member_at(t) {
                None => None,
                Some((member, rest)) => if rest.len() >= s.len() {
                    None
                } else {
                    match members_from(rest, false) {
                        Some(more) => Some(seq![member] + more),
                        None => None,
                    }
                },
            },
        }
    }
}

/// The text of members up to the end of their object, without white space.
pub open spec fn members_text(ms: Seq<(Seq<char>, Seq<char>)>, first: bool) -> Seq<char>
    decreases ms.len(),
{
    if ms.len() == 0 {
        seq!['}']
    } else {
        (if first {
            Seq::<char>::empty()
        } else {
            seq![',']
        }) + (quoted(ms[0].0) + (seq![':'] + (ms[0].1 + members_text(ms.skip(1), false))))
    }
}

/// A text between quotation marks.
pub open spec fn quoted(s: Seq<char>) -> Seq<char> {
    seq!['"'] + s + seq!['"']
}

/// Whether members are such as records have.
pub open spec fn are_record_members(ms: Seq<(Seq<char>, Seq<char>)>) -> bool {
    forall|k: int|
        0 <= k < ms.len() ==> is_record_member(#[trigger] ms[k])
}

/// Whether a member is such as records have.
pub open spec fn is_record_member(m: (Seq<char>, Seq<char>)) -> bool {
    &&& is_plain_string(quoted(m.0))
    &&& is_record_value(m.1)
    &&& m.1.len() > 0 && !is_json_space(m.1[0])
}

/// What follows a member's value within an object goes on with it.
proof fn members_go_on(ms: Seq<(Seq<char>, Seq<char>)>)
    ensures
        goes_on(members_text(ms, false)),
        !is_json_space(members_text(ms, false)[0]),
{
}

/// The member at the start of a text. One that records have is read as it was
/// written.
fn read_member_at(s: &str) -> (r: Option<Taken>)
    ensures
        match r {
            Some(t) => member_at(s@) == Some(((t.member.name@, t.member.value@), t.rest@)),
            None => member_at(s@) is None,
        },
        r matches Some(t) ==> t.rest@.len() < s@.len(),
        forall|ms: Seq<(Seq<char>, Seq<char>)>|
            ms.len() > 0 && is_record_member(ms[0]) && s@ == #[trigger] members_text(ms, true) ==> {
                &&& r is Some
                &&& r->0.member.name@ == ms[0].0
                &&& r->0.member.value@ == ms[0].1
                &&& r->0.rest@ == members_text(ms.skip(1), false)
            },
{
    let v = text::chars_of(s);
    if v.len() == 0 || v[0] != '"' {
        proof {
            assert forall|ms: Seq<(Seq<char>, Seq<char>)>| ms.len() > 0 implies s@
                != #[trigger] members_text(ms, true) by {
                assert(members_text(ms, true)[0] == '"');
            }
        }
        return None;
    }
    let key = split_value(s);
    proof {
        assert forall|ms: Seq<(Seq<char>, Seq<char>)>|
            ms.len() > 0 && is_record_member(ms[0]) && s@ == #[trigger] members_text(
                ms,
                true,
            ) implies key is Some && key->0.value@ == quoted(ms[0].0) && key->0.rest@ == seq![':'] + (
        ms[0].1 + members_text(ms.skip(1), false)) by {
            let rest = seq![':'] + (ms[0].1 + members_text(ms.skip(1), false));
            assert(s@ =~= quoted(ms[0].0) + rest);
            assert(goes_on(rest));
            assert(key->0.rest@ =~= rest) by {
                assert(key->0.value@ + key->0.rest@ == s@);
                assert(s@.skip(key->0.value@.len() as int) =~= key->0.rest@);
                assert(s@.skip(quoted(ms[0].0).len() as int) =~= rest);
            }
        }
    }
    match key {
        None => None,
        Some(Split { value: quoted_name, rest }) => {
            proof {
                assert(s@.take(quoted_name@.len() as int) =~= quoted_name@);
                assert(s@.skip(quoted_name@.len() as int) =~= rest@);
            }
            let name = read_string(quoted_name.as_str());
            let colon = unspace(rest.as_str());
            let at = pass(colon.as_str(), ':');
            proof {
                assert forall|ms: Seq<(Seq<char>, Seq<char>)>|
                    ms.len() > 0 && is_record_member(ms[0]) && s@ == #[trigger] members_text(
                        ms,
                        true,
                    ) implies {
                    &&& name is Some && name->0@ == ms[0].0
                    &&& at is Some && at->0@ == ms[0].1 + members_text(ms.skip(1), false)
                } by {
                    let q = quoted(ms[0].0);
                    assert(q.subrange(1, q.len() - 1) =~= ms[0].0);
                    let tail = ms[0].1 + members_text(ms.skip(1), false);
                    assert(colon@ == seq![':'] + tail);
                    assert(colon@.skip(1) =~= tail);
                    assert(tail[0] == ms[0].1[0]);
                }
            }
            match (name, at) {
                (Some(name), Some(at)) => {
                    let value = split_value(at.as_str());
                    proof {
                        assert forall|ms: Seq<(Seq<char>, Seq<char>)>|
                            ms.len() > 0 && is_record_member(ms[0]) && s@
                                == #[trigger] members_text(ms, true) implies {
                            &&& value is Some && value->0.value@ == ms[0].1
                            &&& value->0.rest@ == members_text(ms.skip(1), false)
                        } by {
                            let more = members_text(ms.skip(1), false);
                            members_go_on(ms.skip(1));
                            assert(at@ == ms[0].1 + more);
                            assert(value->0.value@ + value->0.rest@ == at@);
                            assert(at@.skip(value->0.value@.len() as int) =~= value->0.rest@);
                            assert(at@.skip(ms[0].1.len() as int) =~= more);
                        }
                    }
                    match value {
                        None => None,
                        Some(Split { value, rest }) => {
                            proof {
                                assert(at@.take(value@.len() as int) =~= value@);
                                assert(at@.skip(value@.len() as int) =~= rest@);
                                assert forall|ms: Seq<(Seq<char>, Seq<char>)>|
                                    ms.len() > 0 && is_record_member(ms[0]) && s@
                                        == #[trigger] members_text(ms, true) implies unspaced(rest@)
                                    == members_text(ms.skip(1), false) by {
                                    members_go_on(ms.skip(1));
                                }
                            }
                            let more = unspace(rest.as_str());
                            Some(Taken { member: Member { name, value }, rest: more })
                        },
                    }
                },
                _ => None,
            }
        },
    }
}

/// The members of an object, from the text behind its opening brace, without
/// white space at its start. Members that records have are read as they were
/// written.
fn read_members(s: &str) -> (r: Option<Vec<Member>>)
    ensures
        match r {
            Some(v) => members_from(s@, true) == Some(member_views(v@)),
            None => members_from(s@, true) is None,
        },
        forall|ms: Seq<(Seq<char>, Seq<char>)>|
            are_record_members(ms) && s@ == #[trigger] members_text(ms, true) ==> r is Some
                && member_views(r->0@) == ms,
{
    let ghost all = s@;
    let ghost whole = members_from(s@, true);
    let mut out: Vec<Member> = Vec::new();
    let mut cur: String = s.to_owned();
    let mut first: bool = true;
    proof {
        assert(member_views(out@) =~= Seq::<(Seq<char>, Seq<char>)>::empty());
        if let Some(ms) = whole {
            assert(member_views(out@) + ms =~= ms);
        }
        assert forall|ms: Seq<(Seq<char>, Seq<char>)>| #[trigger] members_text(ms, true)
            == all implies ms.skip(0) == ms by {
            assert(ms.skip(0) =~= ms);
        }
    }
    loop
        invariant
            first == (out@.len() == 0),
            all == s@,
            whole == members_from(all, true),
            match members_from(cur@, first) {
                Some(more) => whole == Some(member_views(out@) + more),
                None => whole is None,
            },
            forall|ms: Seq<(Seq<char>, Seq<char>)>|
                are_record_members(ms) && all == #[trigger] members_text(ms, true) ==> {
                    &&& out@.len() <= ms.len()
                    &&& member_views(out@) == ms.take(out@.len() as int)
                    &&& cur@ == members_text(ms.skip(out@.len() as int), first)
                },
        decreases cur@.len(),
    {
        let ghost before = cur@;
        let ghost views = member_views(out@);
        let ghost k = out@.len() as int;
        let v = text::chars_of(cur.as_str());
        if v.len() > 0 && v[0] == '}' {
            let rest = text::string_of_range(&v, 1, v.len());
            proof {
                assert(rest@ =~= cur@.skip(1));
                assert forall|ms: Seq<(Seq<char>, Seq<char>)>|
                    are_record_members(ms) && all == #[trigger] members_text(ms, true) implies {
                    &&& k == ms.len()
                    &&& rest@.len() == 0
                } by {
                    let more = ms.skip(k);
                    if more.len() > 0 {
                        assert(members_text(more, first)[0] == if first {
                            '"'
                        } else {
                            ','
                        });
                    }
                }
                assert(views + Seq::<(Seq<char>, Seq<char>)>::empty() =~= views);
            }
            if unspace(rest.as_str()).as_str().is_empty() {
                proof {
                    assert forall|ms: Seq<(Seq<char>, Seq<char>)>|
                        are_record_members(ms) && all == #[trigger] members_text(
                            ms,
                            true,
                        ) implies views == ms by {
                        assert(ms.take(k) =~= ms);
                    }
                }
                return Some(out);
            }
            proof {
                assert forall|ms: Seq<(Seq<char>, Seq<char>)>|
                    are_record_members(ms) && all == #[trigger] members_text(ms, true) implies false by {
                    assert(unspaced(rest@) == rest@);
                }
            }
            return None;
        }
        let at: String = if first {
            cur
        } else {
            match pass(cur.as_str(), ',') {
                Some(t) => t,
                None => {
                    proof {
                        assert forall|ms: Seq<(Seq<char>, Seq<char>)>|
                            are_record_members(ms) && all == #[trigger] members_text(
                                ms,
                                true,
                            ) implies false by {
                            assert(members_text(ms.skip(k), false)[0] == ',' || members_text(
                                ms.skip(k),
                                false,
                            )[0] == '}');
                        }
                    }
                    return None;
                },
            }
        };
        proof {
            assert forall|ms: Seq<(Seq<char>, Seq<char>)>|
                are_record_members(ms) && all == #[trigger] members_text(ms, true) implies {
                &&& k < ms.len()
                &&& at@ == members_text(ms.skip(k), true)
                &&& is_record_member(ms.skip(k)[0])
            } by {
                let more = ms.skip(k);
                if more.len() == 0 {
                    assert(members_text(more, first)[0] == '}');
                }
                assert(more[0] == ms[k]);
                let rest = quoted(more[0].0) + (seq![':'] + (more[0].1 + members_text(
                    more.skip(1),
                    false,
                )));
                assert(members_text(more, true) =~= rest);
                if !first {
                    assert(before.skip(1) =~= rest);
                    assert(rest[0] == '"');
                }
            }
        }
        match read_member_at(at.as_str()) {
            None => {
                proof {
                    assert forall|ms: Seq<(Seq<char>, Seq<char>)>|
                        are_record_members(ms) && all == #[trigger] members_text(
                            ms,
                            true,
                        ) implies false by {
                        assert(at@ == members_text(ms.skip(k), true));
                    }
                }
                return None;
            },
            Some(Taken { member: m, rest }) => {
                let ghost view = (m.name@, m.value@);
                proof {
                    assert forall|ms: Seq<(Seq<char>, Seq<char>)>|
                        are_record_members(ms) && all == #[trigger] members_text(ms, true) implies {
                        &&& view == ms[k]
                        &&& rest@ == members_text(ms.skip(k + 1), false)
                    } by {
                        assert(at@ == members_text(ms.skip(k), true));
                        assert(ms.skip(k)[0] == ms[k]);
                        assert(ms.skip(k).skip(1) =~= ms.skip(k + 1));
                    }
                }
                out.push(m);
                proof {
                    assert(member_views(out@) =~= views.push(view));
                    if let Some(more) = members_from(rest@, false) {
                        assert(views + (seq![view] + more) =~= views.push(view) + more);
                    }
                    assert forall|ms: Seq<(Seq<char>, Seq<char>)>|
                        are_record_members(ms) && all == #[trigger] members_text(
                            ms,
                            true,
                        ) implies views.push(view) == ms.take(k + 1) by {
                        assert(views.push(view) =~= ms.take(k + 1));
                    }
                }
                cur = rest;
                first = false;
            },
        }
    }
}

/// The value of the member with a name: the last one where there are more.
pub open spec fn value_of(ms: Seq<(Seq<char>, Seq<char>)>, name: Seq<char>) -> Option<Seq<char>>
    decreases ms.len(),
{
    if ms.len() == 0 {
        None
    } else if ms.last().0 == name {
        Some(ms.last().1)
    } else {
        value_of(ms.drop_last(), name)
    }
}

/// How many members have a name.
pub open spec fn count_of(ms: Seq<(Seq<char>, Seq<char>)>, name: Seq<char>) -> nat
    decreases ms.len(),
{
    if ms.len() == 0 {
        0
    } else {
        count_of(ms.drop_last(), name) + if ms.last().0 == name {
            1nat
        } else {
            0nat
        }
    }
}

proof fn counts_grow(ms: Seq<(Seq<char>, Seq<char>)>, name: Seq<char>, n: int)
    requires
        0 <= n <= ms.len(),
    ensures
        count_of(ms.take(n), name) <= count_of(ms, name),
    decreases ms.len() - n,
{
    if n == ms.len() {
        assert(ms.take(n) =~= ms);
    } else {
        counts_grow(ms, name, n + 1);
        assert(ms.take(n + 1).drop_last() =~= ms.take(n));
    }
}

/// The value of the member with a name, if there is one; whether there are more.
fn find_member<'a>(v: &'a Vec<Member>, name: &str) -> (r: (Option<&'a String>, bool))
    ensures
        r.1 == (count_of(member_views(v@), name@) > 1),
        !r.1 ==> value_of(member_views(v@), name@) == match r.0 {
            Some(s) => Some(s@),
            None => None,
        },
{
    let ghost ms = member_views(v@);
    let mut found: Option<&'a String> = None;
    let mut i: usize = 0;
    proof {
        assert(ms.take(0) =~= Seq::<(Seq<char>, Seq<char>)>::empty());
    }
    while i < v.len()
        invariant
            ms == member_views(v@),
            i <= v@.len(),
            value_of(ms.take(i as int), name@) == match found {
                Some(s) => Some(s@),
                None => None::<Seq<char>>,
            },
            count_of(ms.take(i as int), name@) == if found is Some {
                1nat
            } else {
                0nat
            },
        decreases v@.len() - i,
    {
        proof {
            assert(ms.take(i + 1).drop_last() =~= ms.take(i as int));
            assert(ms.take(i + 1).last() == (v@[i as int].name@, v@[i as int].value@));
        }
        if text::same(v[i].name.as_str(), name) {
            if found.is_some() {
                proof {
                    counts_grow(ms, name@, i + 1);
                }
                return (None, true);
            }
            found = Some(&v[i].value);
        }
        i += 1;
    }
    proof {
        assert(ms.take(i as int) =~= ms);
    }
    (found, false)
}

/// The number that a JSON text is, where it is one from zero on without a
/// fraction that fits in 64 bits.
pub open spec fn number_in(s: Seq<char>) -> Option<u64> {
    match text::unsigned_value(s, u64::MAX as nat) {
        Some(n) => if s == text::decimal(n) {
            Some(n as u64)
        } else {
            None
        },
        None => None,
    }
}

fn read_number(s: &String) -> (r: Option<u64>)
    ensures
        r == number_in(s@),
{
    match text::parse_unsigned(s.as_str(), u64::MAX) {
        Some(n) => if text::same(text::decimal_string(n).as_str(), s.as_str()) {
            Some(n)
        } else {
            None
        },
        None => None,
    }
}

/// The number in an optional JSON text.
pub open spec fn opt_number(s: Option<Seq<char>>) -> Option<u64> {
    match s {
        Some(s) => number_in(s),
        None => None,
    }
}

fn read_opt_number(s: Option<&String>) -> (r: Option<u64>)
    ensures
        r == opt_number(
            match s {
                Some(s) => Some(s@),
                None => None,
            },
        ),
{
    match s {
        Some(s) => read_number(s),
        None => None,
    }
}

/// What the members of an object say of a journal line; nothing where one that
/// a journal line has occurs twice. Other members are passed over.
pub open spec fn members_line(ms: Seq<(Seq<char>, Seq<char>)>) -> Option<RawLineView> {
    if count_of(ms, "wall_ts"@) > 1 || count_of(ms, "log_ts"@) > 1 || count_of(ms, "seq"@) > 1
        || count_of(ms, "batch"@) > 1 {
        None
    } else {
        let log = value_of(ms, "log_ts"@);
        Some(
            RawLineView {
                wall_ts: opt_number(value_of(ms, "wall_ts"@)),
                log_null: log is None || log == Some("null"@),
                log_ts: opt_number(log),
                seq: opt_number(value_of(ms, "seq"@)),
                batch: match value_of(ms, "batch"@) {
                    Some(v) => member_json(v),
                    None => None,
                },
            },
        )
    }
}

fn line_of_members(v: &Vec<Member>) -> (r: Option<RawLine>)
    ensures
        members_line(member_views(v@)) == match r {
            Some(raw) => Some(raw@),
            None => None,
        },
        forall|s: Seq<char>|
            r is Some && value_of(member_views(v@), "batch"@) == Some(s) && #[trigger] member_json(
                s,
            ) is Some ==> r->0@.batch == compact_json(s),
{
    let (wall, wall_twice): (Option<&String>, bool) = find_member(v, "wall_ts");
    let (log, log_twice): (Option<&String>, bool) = find_member(v, "log_ts");
    let (seq, seq_twice): (Option<&String>, bool) = find_member(v, "seq");
    let (batch, batch_twice): (Option<&String>, bool) = find_member(v, "batch");
    if wall_twice || log_twice || seq_twice || batch_twice {
        return None;
    }
    let log_null: bool = match log {
        Some(s) => text::same(s.as_str(), "null"),
        None => true,
    };
    let batch: Option<String> = match batch {
        Some(s) => read_member(s.as_str()),
        None => None,
    };
    Some(
        RawLine {
            wall_ts: read_opt_number(wall),
            log_null,
            log_ts: read_opt_number(log),
            seq: read_opt_number(seq),
            batch,
        },
    )
}

/// What `serde_json` reads in a text as a list of the four members of a journal
/// line, or nothing where it is none.
pub uninterp spec fn line_list(text: Seq<char>) -> Option<RawLineView>;

/// `serde_json::from_str` into a tuple: what it reads depends on the text alone.
#[verifier::external_body]
fn read_list(text: &str) -> (r: Option<RawLine>)
    ensures
        line_list(text@) == match r {
            Some(raw) => Some(raw@),
            None => None,
        },
{
    let l: (u64, Option<u64>, u32, serde_json::Value) = serde_json::from_str(text).ok()?;
    Some(RawLine {
        wall_ts: Some(l.0),
        log_null: l.1.is_none(),
        log_ts: l.1,
        seq: Some(l.2 as u64),
        batch: Some(l.3.to_string()),
    })
}

/// The members of the record of a batch.
pub open spec fn written(
    wall_ts: u64,
    log_ts: Option<u64>,
    seq: u32,
    batch: Seq<char>,
) -> RawLineView {
    RawLineView {
        wall_ts: Some(wall_ts),
        log_null: log_ts is None,
        log_ts,
        seq: Some(seq as u64),
        batch: compact_json(batch),
    }
}

/// The journal line that has the members `raw`: nothing where one is missing or
/// is not what it has to be. The log timestamp may be missing.
pub open spec fn line_with(raw: RawLineView) -> Option<LineView> {
    if raw.wall_ts is Some && raw.seq is Some && raw.seq->0 <= u32::MAX && raw.batch is Some && (
    raw.log_null || raw.log_ts is Some) {
        Some(
            LineView {
                wall_ts: raw.wall_ts->0,
                log_ts: if raw.log_null {
                    None
                } else {
                    raw.log_ts
                },
                seq: raw.seq->0 as u32,
                batch: raw.batch->0,
            },
        )
    } else {
        None
    }
}

/// The journal line that has the members `raw`.
pub fn line_of(raw: RawLine) -> (r: Option<JournalLine>)
    ensures
        opt_line(r) == line_with(raw@),
{
    let log_ts: Option<u64> = if raw.log_null {
        None
    } else if raw.log_ts.is_some() {
        raw.log_ts
    } else {
        return None;
    };
    match (raw.wall_ts, raw.seq, raw.batch) {
        (Some(wall_ts), Some(seq), Some(batch)) => if seq <= u32::MAX as u64 {
            Some(JournalLine { wall_ts, log_ts, seq: seq as u32, batch })
        } else {
            None
        },
        _ => None,
    }
}

/// What a text says of a journal line: the members of an object, or a list.
pub open spec fn line_raw(s: Seq<char>) -> Option<RawLineView> {
    match behind(unspaced(s), '{') {
        Some(t) => match members_from(t, true) {
            Some(ms) => members_line(ms),
            None => None,
        },
        None => line_list(s),
    }
}

/// The journal line that a text is, whose members stand in a list or under their
/// names.
pub open spec fn line_in_text(s: Seq<char>) -> Option<LineView> {
    match line_raw(text::trimmed_end(s)) {
        Some(raw) => line_with(raw),
        None => None,
    }
}

/// The journal line of a batch, as it is read.
pub open spec fn stored(wall_ts: u64, log_ts: Option<u64>, seq: u32, batch: Seq<char>) -> LineView {
    LineView { wall_ts, log_ts, seq, batch: compact_json(batch)->0 }
}

/// Whether a batch can be read back: it is what is written for a value, it can be
/// read, and it is not nested too deep within its record.
pub open spec fn can_be_read_back(
    wall_ts: u64,
    log_ts: Option<u64>,
    seq: u32,
    batch: Seq<char>,
) -> bool {
    is_compact(batch) && compact_json(batch) is Some && member_json(batch) is Some
}

/// The white space behind a record is its line feed.
proof fn record_is_trimmed(wall_ts: u64, log_ts: Option<u64>, seq: u32, batch: Seq<char>)
    ensures
        text::trimmed_end(line_text(wall_ts, log_ts, seq, batch)) == record_text(
            wall_ts,
            log_ts,
            seq,
            batch,
        ),
{
    reveal_strlit("}");
    reveal_strlit("\n");
    let t = record_text(wall_ts, log_ts, seq, batch);
    let s = line_text(wall_ts, log_ts, seq, batch);
    assert(s.last() == '\n');
    assert(s.drop_last() =~= t);
    assert(t.last() == '}');
    reveal_with_fuel(text::trimmed_end, 2);
}

/// The members of a record.
pub open spec fn record_members(
    wall_ts: u64,
    log_ts: Option<u64>,
    seq: u32,
    batch: Seq<char>,
) -> Seq<(Seq<char>, Seq<char>)> {
    seq![
        ("wall_ts"@, text::decimal(wall_ts as nat)),
        ("log_ts"@, number_or_null(log_ts)),
        ("seq"@, text::decimal(seq as nat)),
        ("batch"@, batch),
    ]
}

proof fn numbers_are_record_values(n: u64)
    ensures
        is_record_value(text::decimal(n as nat)),
        text::decimal(n as nat).len() > 0,
        !is_json_space(text::decimal(n as nat)[0]),
        number_in(text::decimal(n as nat)) == Some(n),
        text::decimal(n as nat) != "null"@,
{
    reveal_strlit("null");
    text::decimal_denotes(n as nat);
    text::decimal_read_back(n as nat, u64::MAX as nat);
    let d = text::decimal(n as nat);
    assert(text::all_digits(d));
    assert(d[0] != 'n');
    assert("null"@[0] == 'n');
}

/// The text of a record is that of its members.
proof fn records_are_members(wall_ts: u64, log_ts: Option<u64>, seq: u32, batch: Seq<char>)
    ensures
        record_text(wall_ts, log_ts, seq, batch) == seq!['{'] + members_text(
            record_members(wall_ts, log_ts, seq, batch),
            true,
        ),
{
    reveal_strlit("{\"wall_ts\":");
    reveal_strlit(",\"log_ts\":");
    reveal_strlit(",\"seq\":");
    reveal_strlit(",\"batch\":");
    reveal_strlit("}");
    reveal_strlit("wall_ts");
    reveal_strlit("log_ts");
    reveal_strlit("seq");
    reveal_strlit("batch");
    let ms = record_members(wall_ts, log_ts, seq, batch);
    let m1 = ms.skip(1);
    let m2 = m1.skip(1);
    let m3 = m2.skip(1);
    let m4 = m3.skip(1);
    assert(m1[0] == ms[1] && m2[0] == ms[2] && m3[0] == ms[3] && m4.len() == 0);
    let w = text::decimal(wall_ts as nat);
    let l = number_or_null(log_ts);
    let n = text::decimal(seq as nat);
    assert(members_text(m4, false) =~= "}"@);
    assert(members_text(m3, false) =~= ",\"batch\":"@ + batch + "}"@);
    assert(members_text(m2, false) =~= ",\"seq\":"@ + n + (",\"batch\":"@ + batch + "}"@));
    assert(members_text(m1, false) =~= ",\"log_ts\":"@ + l + (",\"seq\":"@ + n + (
    ",\"batch\":"@ + batch + "}"@)));
    assert(seq!['{'] + members_text(ms, true) =~= "{\"wall_ts\":"@ + w + (",\"log_ts\":"@ + l + (
    ",\"seq\":"@ + n + (",\"batch\":"@ + batch + "}"@))));
    assert(record_text(wall_ts, log_ts, seq, batch) =~= "{\"wall_ts\":"@ + w + (",\"log_ts\":"@
        + l + (",\"seq\":"@ + n + (",\"batch\":"@ + batch + "}"@))));
}

/// The members of a record are such as records have, and say what was recorded.
proof fn record_members_are_read(wall_ts: u64, log_ts: Option<u64>, seq: u32, batch: Seq<char>)
    requires
        is_compact(batch),
    ensures
        are_record_members(record_members(wall_ts, log_ts, seq, batch)),
        value_of(record_members(wall_ts, log_ts, seq, batch), "batch"@) == Some(batch),
        members_line(record_members(wall_ts, log_ts, seq, batch)) == Some(
            RawLineView {
                batch: member_json(batch),
                ..written(wall_ts, log_ts, seq, batch)
            },
        ),
{
    reveal_strlit("wall_ts");
    reveal_strlit("log_ts");
    reveal_strlit("seq");
    reveal_strlit("batch");
    reveal_strlit("null");
    let ms = record_members(wall_ts, log_ts, seq, batch);
    numbers_are_record_values(wall_ts);
    numbers_are_record_values(seq as u64);
    if log_ts is Some {
        numbers_are_record_values(log_ts->0);
    }
    assert(is_plain_string(quoted("wall_ts"@)));
    assert(is_plain_string(quoted("log_ts"@)));
    assert(is_plain_string(quoted("seq"@)));
    assert(is_plain_string(quoted("batch"@)));
    assert("wall_ts"@.len() == 7 && "log_ts"@.len() == 6 && "seq"@.len() == 3 && "batch"@.len()
        == 5);
    let m3 = ms.drop_last();
    let m2 = m3.drop_last();
    let m1 = m2.drop_last();
    let m0 = m1.drop_last();
    assert(ms.last() == ms[3] && m3.last() == ms[2] && m2.last() == ms[1] && m1.last() == ms[0]);
    assert(m0.len() == 0);
    reveal_with_fuel(count_of, 6);
    reveal_with_fuel(value_of, 6);
}

/// What a text says of a journal line. A record is read as it was written.
fn read_raw(s: &str) -> (r: Option<RawLine>)
    ensures
        line_raw(s@) == match r {
            Some(raw) => Some(raw@),
            None => None,
        },
        forall|w: u64, l: Option<u64>, n: u32, b: Seq<char>|
            s@ == #[trigger] record_text(w, l, n, b) && can_be_read_back(w, l, n, b) ==> r is Some
                && r->0@ == written(w, l, n, b),
{
    let at = pass(unspace(s).as_str(), '{');
    proof {
        assert forall|w: u64, l: Option<u64>, n: u32, b: Seq<char>|
            s@ == #[trigger] record_text(w, l, n, b) implies at is Some && at->0@ == members_text(
            record_members(w, l, n, b),
            true,
        ) by {
            records_are_members(w, l, n, b);
            let t = members_text(record_members(w, l, n, b), true);
            assert(s@.skip(1) =~= t);
            assert(s@[0] == '{');
            assert(t[0] == '"');
        }
    }
    match at {
        Some(t) => {
            let members = read_members(t.as_str());
            proof {
                assert forall|w: u64, l: Option<u64>, n: u32, b: Seq<char>|
                    s@ == #[trigger] record_text(w, l, n, b) && can_be_read_back(
                        w,
                        l,
                        n,
                        b,
                    ) implies members is Some && member_views(members->0@) == record_members(
                    w,
                    l,
                    n,
                    b,
                ) by {
                    record_members_are_read(w, l, n, b);
                }
            }
            match members {
                Some(v) => {
                    let r = line_of_members(&v);
                    proof {
                        assert forall|w: u64, l: Option<u64>, n: u32, b: Seq<char>|
                            s@ == #[trigger] record_text(w, l, n, b) && can_be_read_back(
                                w,
                                l,
                                n,
                                b,
                            ) implies r is Some && r->0@ == written(w, l, n, b) by {
                            record_members_are_read(w, l, n, b);
                            assert(member_json(b) is Some);
                        }
                    }
                    r
                },
                None => None,
            }
        },
        None => read_list(s),
    }
}

/// The journal line that a text is; nothing where it is none. What was written
/// for a batch is read as it was written.
pub fn parse_line(s: &str) -> (r: Option<JournalLine>)
    ensures
        opt_line(r) == line_in_text(s@),
        forall|w: u64, l: Option<u64>, n: u32, b: Seq<char>|
            s@ == #[trigger] line_text(w, l, n, b) && can_be_read_back(w, l, n, b) ==> opt_line(r)
                == Some(stored(w, l, n, b)),
{
    let trimmed = text::trim_end(s);
    let raw = read_raw(trimmed.as_str());
    proof {
        assert forall|w: u64, l: Option<u64>, n: u32, b: Seq<char>|
            s@ == #[trigger] line_text(w, l, n, b) && can_be_read_back(w, l, n, b) implies {
            &&& raw is Some
            &&& raw->0@ == written(w, l, n, b)
            &&& compact_json(b) is Some
        } by {
            record_is_trimmed(w, l, n, b);
            assert(trimmed@ == record_text(w, l, n, b));
        }
    }
    match raw {
        Some(raw) => line_of(raw),
        None => None,
    }
}

/// `String::from_utf8`: the text that the bytes encode, where they encode one.
#[verifier::external_body]
fn text_of(bytes: &Vec<u8>) -> (r: Option<String>)
    ensures
        match r {
            Some(s) => vstd::utf8::encode_utf8(s@) == bytes@,
            None => !vstd::utf8::valid_utf8(bytes@),
        },
{
    String::from_utf8(bytes.clone()).ok()
}

/// The journal line that the bytes of a line encode.
pub open spec fn line_in(bytes: Seq<u8>) -> Option<LineView> {
    if vstd::utf8::valid_utf8(bytes) {
        line_in_text(vstd::utf8::decode_utf8(bytes))
    } else {
        None
    }
}

/// The journal line that the bytes of a line encode; nothing where they are no
/// text, or the text is no journal line. What was written for a batch is read
/// as it was written.
pub fn read_line(bytes: &Vec<u8>) -> (r: Option<JournalLine>)
    ensures
        opt_line(r) == line_in(bytes@),
        forall|w: u64, l: Option<u64>, n: u32, b: Seq<char>|
            bytes@ == vstd::utf8::encode_utf8(#[trigger] line_text(w, l, n, b)) && can_be_read_back(
                w,
                l,
                n,
                b,
            ) ==> opt_line(r) == Some(stored(w, l, n, b)),
{
    broadcast use vstd::utf8::encode_utf8_valid_utf8;
    broadcast use vstd::utf8::encode_utf8_decode_utf8;

    match text_of(bytes) {
        Some(s) => {
            let r = parse_line(s.as_str());
            proof {
                assert(vstd::utf8::decode_utf8(bytes@) == s@);
                assert forall|w: u64, l: Option<u64>, n: u32, b: Seq<char>|
                    bytes@ == vstd::utf8::encode_utf8(#[trigger] line_text(w, l, n, b))
                        && can_be_read_back(w, l, n, b) implies opt_line(r) == Some(
                    stored(w, l, n, b),
                ) by {
                    assert(vstd::utf8::decode_utf8(bytes@) == line_text(w, l, n, b));
                }
            }
            r
        },
        None => None,
    }
}

/// The stamps of a line; nothing where it is no journal line.
pub open spec fn stamp_in(bytes: Seq<u8>) -> Option<LineStamp> {
    match line_in(bytes) {
        Some(l) => Some(LineStamp { wall_ts: l.wall_ts, log_ts: l.log_ts }),
        None => None,
    }
}

/// The stamps of lines.
pub open spec fn stamps_of(lines: Seq<Seq<u8>>) -> Seq<Option<LineStamp>> {
    lines.map_values(|l: Seq<u8>| stamp_in(l))
}

/// The batch of a line; nothing where it is no journal line.
pub open spec fn batch_in(bytes: Seq<u8>) -> Option<Seq<char>> {
    match line_in(bytes) {
        Some(l) => Some(l.batch),
        None => None,
    }
}

// ── The journal ─────────────────────────────────────────────────────────────

/// The append-only, seekable journal of one stream.
pub struct Journal {
    /// Seek index, in the order of the file: ascending by `wall_ts` as long as
    /// the server's clock does not run backwards.
    pub index: Vec<IndexEntry>,
}

/// The index of a file's first `n` lines, given the stamps that were read from
/// each: one entry for each line that is a journal line.
pub open spec fn index_of(lines: Seq<Seq<u8>>, stamps: Seq<Option<LineStamp>>, n: nat) -> Seq<
    IndexEntry,
>
    decreases n,
{
    if n == 0 {
        Seq::empty()
    } else {
        let before = index_of(lines, stamps, (n - 1) as nat);
        match stamps[n - 1] {
            Some(s) => before.push(
                IndexEntry {
                    wall_ts: s.wall_ts,
                    log_ts: s.log_ts,
                    byte_offset: offset_of(lines, (n - 1) as nat) as u64,
                },
            ),
            None => before,
        }
    }
}

/// Whether the index is in ascending order of receipt.
pub open spec fn sorted_by_wall(index: Seq<IndexEntry>) -> bool {
    forall|i: int, j: int|
        0 <= i <= j < index.len() ==> (#[trigger] index[i]).wall_ts <= (
        #[trigger] index[j]).wall_ts
}

/// Whether the index is in ascending order of log time.
pub open spec fn sorted_by_log(index: Seq<IndexEntry>) -> bool {
    forall|i: int, j: int|
        0 <= i <= j < index.len() ==> (#[trigger] index[i]).spec_log_ts() <= (
        #[trigger] index[j]).spec_log_ts()
}

/// The times of receipt in an index.
pub open spec fn wall_times(index: Seq<IndexEntry>) -> Seq<u64> {
    index.map_values(|e: IndexEntry| e.wall_ts)
}

/// The log times in an index.
pub open spec fn log_times(index: Seq<IndexEntry>) -> Seq<u64> {
    index.map_values(|e: IndexEntry| e.spec_log_ts())
}

/// Where halving the range from `lo` to `hi` leads to: each time to the half
/// behind the middle where the time there is before `target`, else to the half
/// before it. In a range in ascending order that is the first time not before
/// `target`.
pub open spec fn halved(times: Seq<u64>, lo: int, hi: int, target: u64) -> int
    decreases hi - lo,
{
    if lo >= hi {
        lo
    } else {
        let mid = lo + (hi - lo) / 2;
        if times[mid] < target {
            halved(times, mid + 1, hi, target)
        } else {
            halved(times, lo, mid, target)
        }
    }
}

/// Where a seek by time of receipt leads to.
pub open spec fn wall_position(index: Seq<IndexEntry>, ts: u64) -> int {
    halved(wall_times(index), 0, index.len() as int, ts)
}

/// Where a seek by log time leads to.
pub open spec fn log_position(index: Seq<IndexEntry>, ts: u64) -> int {
    halved(log_times(index), 0, index.len() as int, ts)
}

impl Journal {
    /// Builds the seek index of a journal from what its file holds; nothing
    /// where the file is no text. Lines that are no journal lines are left out.
    pub fn open(content: &Vec<u8>) -> (r: Option<Self>)
        ensures
            match r {
                Some(j) => {
                    &&& vstd::utf8::valid_utf8(content@)
                    &&& j.index@ == index_of(
                        lines_of(content@),
                        stamps_of(lines_of(content@)),
                        lines_of(content@).len(),
                    )
                },
                None => !vstd::utf8::valid_utf8(content@),
            },
    {
        broadcast use vstd::utf8::encode_utf8_valid_utf8;

        if text_of(content).is_none() {
            return None;
        }
        let size: usize = content.len();
        let lines = split_lines(content);
        let n: usize = lines.len();
        let ghost bs = lines_of(content@);
        let mut stamps: Vec<Option<LineStamp>> = Vec::new();
        while stamps.len() < n
            invariant
                n == lines@.len(),
                bs == bytes_of(lines@),
                stamps@.len() <= n,
                forall|i: int| 0 <= i < stamps@.len() ==> #[trigger] stamps@[i] == stamp_in(bs[i]),
            decreases n - stamps@.len(),
        {
            let i: usize = stamps.len();
            proof {
                assert(bs[i as int] == lines@[i as int]@);
            }
            match read_line(&lines[i]) {
                Some(l) => stamps.push(Some(LineStamp { wall_ts: l.wall_ts, log_ts: l.log_ts })),
                None => stamps.push(None),
            }
        }
        proof {
            assert(stamps@ =~= stamps_of(bs));
            lines_make_the_file(content@);
            concat_len(bs);
            assert(offset_of(bs, n as nat) == size);
        }
        Some(Journal::indexed(&lines, &stamps))
    }

    /// The journal of a file whose lines are `lines`, where `stamps` holds what
    /// was read from each line: nothing for a line that is no journal line.
    pub fn indexed(lines: &Vec<Vec<u8>>, stamps: &Vec<Option<LineStamp>>) -> (r: Self)
        requires
            lines@.len() == stamps@.len(),
            offset_of(bytes_of(lines@), lines@.len()) <= u64::MAX,
        ensures
            r.index@ == index_of(bytes_of(lines@), stamps@, lines@.len()),
    {
        let mut index: Vec<IndexEntry> = Vec::new();
        let mut offset: u64 = 0;
        let mut i: usize = 0;
        let ghost bs = bytes_of(lines@);
        while i < lines.len()
            invariant
                bs == bytes_of(lines@),
                lines@.len() == stamps@.len(),
                i <= lines@.len(),
                offset_of(bs, lines@.len()) <= u64::MAX,
                offset == offset_of(bs, i as nat),
                index@ == index_of(bs, stamps@, i as nat),
            decreases lines@.len() - i,
        {
            proof {
                offset_grows(bs, (i + 1) as nat, lines@.len());
                assert(bs[i as int] == lines@[i as int]@);
            }
            if let Some(s) = stamps[i] {
                index.push(
                    IndexEntry { wall_ts: s.wall_ts, log_ts: s.log_ts, byte_offset: offset },
                );
            }
            offset += lines[i].len() as u64;
            i += 1;
        }
        Journal { index }
    }

    /// Records a batch whose line starts at `byte_offset`, the end of the file
    /// before the line was written.
    pub fn append(&mut self, wall_ts: u64, log_ts: Option<u64>, byte_offset: u64)
        ensures
            final(self).index@ == old(self).index@.push(
                IndexEntry { wall_ts, log_ts, byte_offset },
            ),
    {
        self.index.push(IndexEntry { wall_ts, log_ts, byte_offset });
    }

    /// Return the total number of batches stored on disk.
    pub fn len(&self) -> (r: usize)
        ensures
            r == self.index@.len(),
    {
        self.index.len()
    }

    pub fn is_empty(&self) -> (r: bool)
        ensures
            r == (self.index@.len() == 0),
    {
        self.index.len() == 0
    }

    /// Wall-clock unix timestamp of the first batch (if any).
    pub fn first_ts(&self) -> (r: Option<u64>)
        ensures
            r == if self.index@.len() > 0 {
                Some(self.index@.first().wall_ts)
            } else {
                None
            },
    {
        self.ts_at(0)
    }

    /// Wall-clock unix timestamp of the last batch (if any).
    pub fn last_ts(&self) -> (r: Option<u64>)
        ensures
            r == if self.index@.len() > 0 {
                Some(self.index@.last().wall_ts)
            } else {
                None
            },
    {
        if self.index.len() == 0 {
            None
        } else {
            self.ts_at(self.index.len() - 1)
        }
    }

    /// EQ log-event timestamp of the first batch (falls back to wall_ts).
    pub fn log_first_ts(&self) -> (r: Option<u64>)
        ensures
            r == if self.index@.len() > 0 {
                Some(self.index@.first().spec_log_ts())
            } else {
                None
            },
    {
        self.log_ts_at(0)
    }

    /// EQ log-event timestamp of the last batch (falls back to wall_ts).
    pub fn log_last_ts(&self) -> (r: Option<u64>)
        ensures
            r == if self.index@.len() > 0 {
                Some(self.index@.last().spec_log_ts())
            } else {
                None
            },
    {
        if self.index.len() == 0 {
            None
        } else {
            self.log_ts_at(self.index.len() - 1)
        }
    }

    /// Find the index position of the first batch with wall_ts >= target_ts.
    /// Returns `self.index.len()` when target_ts is past the end.
    ///
    /// Where the index is not in order, what comes out is still a position with
    /// an earlier batch before it and no earlier batch at it.
    pub fn seek_index(&self, target_ts: u64) -> (r: usize)
        ensures
            r == wall_position(self.index@, target_ts),
            r <= self.index@.len(),
            r > 0 ==> self.index@[r - 1].wall_ts < target_ts,
            r < self.index@.len() ==> self.index@[r as int].wall_ts >= target_ts,
            sorted_by_wall(self.index@) ==> {
                &&& forall|i: int|
                    0 <= i < r ==> (#[trigger] self.index@[i]).wall_ts < target_ts
                &&& forall|i: int|
                    r <= i < self.index@.len() ==> (#[trigger] self.index@[i]).wall_ts
                        >= target_ts
            },
    {
        let mut lo: usize = 0;
        let mut hi: usize = self.index.len();
        while lo < hi
            invariant
                lo <= hi <= self.index@.len(),
                halved(wall_times(self.index@), lo as int, hi as int, target_ts)
                    == wall_position(self.index@, target_ts),
                lo > 0 ==> self.index@[lo - 1].wall_ts < target_ts,
                hi < self.index@.len() ==> self.index@[hi as int].wall_ts >= target_ts,
            decreases hi - lo,
        {
            let mid: usize = lo + (hi - lo) / 2;
            if self.index[mid].wall_ts < target_ts {
                lo = mid + 1;
            } else {
                hi = mid;
            }
        }
        lo
    }

    /// Find the index position of the first batch with log_ts >= target_ts.
    /// Entries that lack a log_ts fall back to their wall_ts for comparison.
    /// Returns `self.index.len()` when target_ts is past the end.
    pub fn seek_index_by_log_ts(&self, target_ts: u64) -> (r: usize)
        ensures
            r == log_position(self.index@, target_ts),
            r <= self.index@.len(),
            r > 0 ==> self.index@[r - 1].spec_log_ts() < target_ts,
            r < self.index@.len() ==> self.index@[r as int].spec_log_ts() >= target_ts,
            sorted_by_log(self.index@) ==> {
                &&& forall|i: int|
                    0 <= i < r ==> (#[trigger] self.index@[i]).spec_log_ts() < target_ts
                &&& forall|i: int|
                    r <= i < self.index@.len() ==> (#[trigger] self.index@[i]).spec_log_ts()
                        >= target_ts
            },
    {
        let mut lo: usize = 0;
        let mut hi: usize = self.index.len();
        while lo < hi
            invariant
                lo <= hi <= self.index@.len(),
                halved(log_times(self.index@), lo as int, hi as int, target_ts)
                    == log_position(self.index@, target_ts),
                lo > 0 ==> self.index@[lo - 1].spec_log_ts() < target_ts,
                hi < self.index@.len() ==> self.index@[hi as int].spec_log_ts() >= target_ts,
            decreases hi - lo,
        {
            let mid: usize = lo + (hi - lo) / 2;
            if self.index[mid].log_or_wall() < target_ts {
                lo = mid + 1;
            } else {
                hi = mid;
            }
        }
        lo
    }

    /// Read a single batch, as JSON, from the file `content` by its index
    /// position; nothing where there is no such position, or its line cannot be
    /// read. A batch whose line stands there is read as it was written.
    pub fn read_at(&self, content: &Vec<u8>, pos: usize) -> (r: Option<String>)
        ensures
            text::opt_view(r) == batch_at(content@, self.index@, pos as int),
            forall|w: u64, l: Option<u64>, n: u32, b: Seq<char>|
                pos < self.index@.len() && line_from(
                    content@,
                    self.index@[pos as int].byte_offset as int,
                ) == vstd::utf8::encode_utf8(#[trigger] line_text(w, l, n, b)) && can_be_read_back(
                    w,
                    l,
                    n,
                    b,
                ) ==> text::opt_view(r) == compact_json(b),
    {
        if pos >= self.index.len() {
            return None;
        }
        match read_line(&line_at(content, self.index[pos].byte_offset)) {
            Some(l) => Some(l.batch),
            None => None,
        }
    }

    /// How many lines a read of up to `count` batches from `pos` on takes.
    pub fn burst_len(&self, pos: usize, count: usize) -> (r: usize)
        ensures
            r == burst_size(self.index@.len(), pos as nat, count as nat),
    {
        let n: usize = self.index.len();
        if pos >= n {
            0
        } else if count <= n - pos {
            count
        } else {
            n - pos
        }
    }

    /// Read up to `count` batches sequentially from the file `content` starting
    /// at index position `pos`: what `read_at` gives there, for each. Fewer
    /// come only where the journal is exhausted, or up to an entry whose own
    /// line cannot be read any more.
    pub fn read_burst(&self, content: &Vec<u8>, pos: usize, count: usize) -> (r: Vec<String>)
        ensures
            r@.len() <= burst_size(self.index@.len(), pos as nat, count as nat),
            forall|i: int|
                0 <= i < r@.len() ==> Some((#[trigger] r@[i])@) == batch_at(
                    content@,
                    self.index@,
                    pos + i,
                ),
            r@.len() < burst_size(self.index@.len(), pos as nat, count as nat) ==> batch_at(
                content@,
                self.index@,
                pos + r@.len(),
            ) is None,
    {
        let size: usize = self.index.len();
        let n: usize = self.burst_len(pos, count);
        let mut lines: Vec<Vec<u8>> = Vec::new();
        let mut i: usize = 0;
        while i < n
            invariant
                size == self.index@.len(),
                n == burst_size(self.index@.len(), pos as nat, count as nat),
                n > 0 ==> pos + n <= self.index@.len(),
                i <= n,
                lines@.len() == i,
                forall|k: int|
                    0 <= k < i ==> (#[trigger] lines@[k])@ == line_from(
                        content@,
                        self.index@[pos + k].byte_offset as int,
                    ),
            decreases n - i,
        {
            lines.push(line_at(content, self.index[pos + i].byte_offset));
            i += 1;
        }
        batches_of(&lines)
    }

    /// Read the wall_ts for a given index position without deserialising the full line.
    pub fn ts_at(&self, pos: usize) -> (r: Option<u64>)
        ensures
            r == if pos < self.index@.len() {
                Some(self.index@[pos as int].wall_ts)
            } else {
                None
            },
    {
        if pos < self.index.len() {
            Some(self.index[pos].wall_ts)
        } else {
            None
        }
    }

    /// Read the EQ log-event timestamp for a given index position.
    /// Falls back to `wall_ts` for old journal entries that predate this field.
    pub fn log_ts_at(&self, pos: usize) -> (r: Option<u64>)
        ensures
            r == if pos < self.index@.len() {
                Some(self.index@[pos as int].spec_log_ts())
            } else {
                None
            },
    {
        if pos < self.index.len() {
            Some(self.index[pos].log_or_wall())
        } else {
            None
        }
    }
}

/// The batches of lines, up to the first that cannot be read.
pub fn batches_of(lines: &Vec<Vec<u8>>) -> (r: Vec<String>)
    ensures
        r@.len() <= lines@.len(),
        forall|i: int|
            0 <= i < r@.len() ==> Some((#[trigger] r@[i])@) == batch_in(lines@[i]@),
        r@.len() < lines@.len() ==> batch_in(lines@[r@.len() as int]@) is None,
{
    let mut out: Vec<String> = Vec::new();
    let mut i: usize = 0;
    while i < lines.len()
        invariant
            i <= lines@.len(),
            out@.len() == i,
            forall|k: int| 0 <= k < i ==> Some((#[trigger] out@[k])@) == batch_in(lines@[k]@),
        decreases lines@.len() - i,
    {
        match read_line(&lines[i]) {
            Some(l) => out.push(l.batch),
            None => {
                return out;
            },
        }
        i += 1;
    }
    out
}

/// How many batches a read of up to `count` from `pos` on takes, in a journal of
/// `len` batches.
pub open spec fn burst_size(len: nat, pos: nat, count: nat) -> nat {
    if pos >= len {
        0
    } else if count <= len - pos {
        count
    } else {
        (len - pos) as nat
    }
}

/// The batch at an index position, read at its own place in the file.
pub open spec fn batch_at(content: Seq<u8>, index: Seq<IndexEntry>, pos: int) -> Option<Seq<char>> {
    if 0 <= pos < index.len() {
        batch_in(line_from(content, index[pos].byte_offset as int))
    } else {
        None
    }
}

/// Later lines start later.
proof fn offset_grows(lines: Seq<Seq<u8>>, i: nat, j: nat)
    requires
        i <= j,
    ensures
        offset_of(lines, i) <= offset_of(lines, j),
    decreases j,
{
    if i < j {
        offset_grows(lines, i, (j - 1) as nat);
    }
}

// ── What the journal keeps ──────────────────────────────────────────────────

/// Opening a file to which one more journal line was appended yields the index
/// that appending to the open journal yields: the new entry starts where the
/// file ended before.
pub proof fn reopening_finds_the_appended(
    content: Seq<u8>,
    stamps: Seq<Option<LineStamp>>,
    line: Seq<u8>,
    stamp: LineStamp,
)
    requires
        content.len() > 0 ==> content.last() == LINE_FEED,
        is_line(line),
        stamps.len() == lines_of(content).len(),
    ensures
        lines_of(content + line) == lines_of(content).push(line),
        index_of(lines_of(content + line), stamps.push(Some(stamp)), lines_of(content + line).len())
            == index_of(lines_of(content), stamps, lines_of(content).len()).push(
            IndexEntry {
                wall_ts: stamp.wall_ts,
                log_ts: stamp.log_ts,
                byte_offset: content.len() as u64,
            },
        ),
{
    appended_line(content, line);
    let before = lines_of(content);
    let after = lines_of(content + line);
    index_of_prefix(after, stamps.push(Some(stamp)), before, stamps, before.len());
    lines_make_the_file(content);
    concat_len(before);
    offset_of_prefix(after, before, before.len());
}

/// An index depends on the lines and stamps that it covers alone.
proof fn index_of_prefix(
    a: Seq<Seq<u8>>,
    sa: Seq<Option<LineStamp>>,
    b: Seq<Seq<u8>>,
    sb: Seq<Option<LineStamp>>,
    n: nat,
)
    requires
        n <= a.len(),
        n <= b.len(),
        n <= sa.len(),
        n <= sb.len(),
        forall|i: int| 0 <= i < n ==> a[i] == b[i],
        forall|i: int| 0 <= i < n ==> sa[i] == sb[i],
    ensures
        index_of(a, sa, n) == index_of(b, sb, n),
    decreases n,
{
    if n > 0 {
        index_of_prefix(a, sa, b, sb, (n - 1) as nat);
        offset_of_prefix(a, b, (n - 1) as nat);
    }
}

/// A batch that was appended is read back: the line at the new entry is the
/// line that was written.
pub proof fn appended_line_reads_back(content: Seq<u8>, line: Seq<u8>)
    requires
        content.len() > 0 ==> content.last() == LINE_FEED,
        is_line(line),
    ensures
        line_from(content + line, content.len() as int) == line,
{
    appended_line(content, line);
    let before = lines_of(content);
    let after = lines_of(content + line);
    read_gives_the_line(content + line, before.len() as int);
    lines_make_the_file(content);
    concat_len(before);
    offset_of_prefix(after, before, before.len());
}

/// A batch that was appended stands in the file at its entry: reading there
/// finds the line that was written for it.
pub proof fn appended_batch_stands_at_its_entry(
    content: Seq<u8>,
    wall_ts: u64,
    log_ts: Option<u64>,
    seq: u32,
    batch: Seq<char>,
)
    requires
        content.len() > 0 ==> content.last() == LINE_FEED,
        !text::has_char(batch, '\n'),
    ensures
        ({
            let line = vstd::utf8::encode_utf8(line_text(wall_ts, log_ts, seq, batch));
            line_from(content + line, content.len() as int) == line
        }),
{
    stored_line_is_a_line(wall_ts, log_ts, seq, batch);
    appended_line_reads_back(
        content,
        vstd::utf8::encode_utf8(line_text(wall_ts, log_ts, seq, batch)),
    );
}

/// Whether entry `i` of an index stands for line `k` of the file, and that line is
/// a journal line.
pub open spec fn entry_of_line(
    lines: Seq<Seq<u8>>,
    index: Seq<IndexEntry>,
    i: int,
    k: int,
) -> bool {
    &&& 0 <= k < lines.len()
    &&& line_in(lines[k]) is Some
    &&& index[i].byte_offset == offset_of(lines, k as nat) as u64
}

proof fn entries_have_lines(lines: Seq<Seq<u8>>, n: nat, i: int)
    requires
        n <= lines.len(),
        0 <= i < index_of(lines, stamps_of(lines), n).len(),
    ensures
        exists|k: int| #[trigger]
            entry_of_line(lines, index_of(lines, stamps_of(lines), n), i, k),
    decreases n,
{
    let stamps = stamps_of(lines);
    let index = index_of(lines, stamps, n);
    let before = index_of(lines, stamps, (n - 1) as nat);
    assert(stamps[n - 1] == stamp_in(lines[n - 1]));
    if i < before.len() {
        entries_have_lines(lines, (n - 1) as nat, i);
        let k = choose|k: int| #[trigger] entry_of_line(lines, before, i, k);
        assert(entry_of_line(lines, index, i, k));
    } else {
        assert(entry_of_line(lines, index, i, n - 1));
    }
}

/// In a journal that was just opened every entry can be read, so that a burst
/// yields fewer batches than asked for only where the journal is exhausted.
pub proof fn opened_entries_are_readable(content: Seq<u8>, i: int)
    requires
        content.len() <= u64::MAX,
        0 <= i < index_of(
            lines_of(content),
            stamps_of(lines_of(content)),
            lines_of(content).len(),
        ).len(),
    ensures
        batch_at(
            content,
            index_of(lines_of(content), stamps_of(lines_of(content)), lines_of(content).len()),
            i,
        ) is Some,
{
    let lines = lines_of(content);
    let index = index_of(lines, stamps_of(lines), lines.len());
    entries_have_lines(lines, lines.len(), i);
    let k = choose|k: int| #[trigger] entry_of_line(lines, index, i, k);
    lines_make_the_file(content);
    concat_len(lines);
    offset_grows(lines, k as nat, lines.len());
    read_gives_the_line(content, k);
}

/// Appending leaves every earlier batch where it was.
pub proof fn appending_keeps_earlier_lines(content: Seq<u8>, line: Seq<u8>, k: int)
    requires
        content.len() > 0 ==> content.last() == LINE_FEED,
        is_line(line),
        0 <= k < lines_of(content).len(),
    ensures
        line_from(content + line, offset_of(lines_of(content), k as nat) as int) == lines_of(
            content,
        )[k],
{
    appended_line(content, line);
    let before = lines_of(content);
    let after = lines_of(content + line);
    read_gives_the_line(content + line, k);
    offset_of_prefix(after, before, k as nat);
}

/// Appending a batch that was received no earlier than the last one keeps the
/// index in order.
pub proof fn appending_keeps_order(index: Seq<IndexEntry>, e: IndexEntry)
    requires
        sorted_by_wall(index),
        index.len() > 0 ==> index.last().wall_ts <= e.wall_ts,
    ensures
        sorted_by_wall(index.push(e)),
{
    assert forall|i: int, j: int| 0 <= i <= j < index.push(e).len() implies (
    #[trigger] index.push(e)[i]).wall_ts <= (#[trigger] index.push(e)[j]).wall_ts by {
        if i < index.len() && j == index.len() {
            assert(index[i].wall_ts <= index[index.len() - 1].wall_ts);
        }
    }
}

} // verus!
