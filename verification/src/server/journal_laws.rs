//! What holds of the lines that the journal keeps.
use vstd::prelude::*;

use crate::server::admin_laws::holds_text;
use crate::server::journal::line_text;
use crate::text;

verus! {

/// A line of the journal is a JSON object that holds each stamp under its own
/// name: when the batch came, when it was logged, `null` where that is not known,
/// its number, and the batch as it is.
pub proof fn lines_hold_their_stamps(
    wall_ts: u64,
    log_ts: Option<u64>,
    seq: u32,
    batch: Seq<char>,
)
    ensures
        ({
            let line = line_text(wall_ts, log_ts, seq, batch);
            &&& holds_text(line, "\"wall_ts\":"@ + text::decimal(wall_ts as nat))
            &&& log_ts is Some ==> holds_text(
                line,
                "\"log_ts\":"@ + text::decimal(log_ts->0 as nat),
            )
            &&& log_ts is None ==> holds_text(line, "\"log_ts\":null"@)
            &&& holds_text(line, "\"seq\":"@ + text::decimal(seq as nat))
            &&& holds_text(line, "\"batch\":"@ + batch)
            &&& line.first() == '{'
            &&& line.last() == '\n'
        }),
{
    reveal_strlit("{\"wall_ts\":");
    reveal_strlit("\"wall_ts\":");
    reveal_strlit(",\"log_ts\":");
    reveal_strlit("\"log_ts\":");
    reveal_strlit("\"log_ts\":null");
    reveal_strlit("null");
    reveal_strlit(",\"seq\":");
    reveal_strlit("\"seq\":");
    reveal_strlit(",\"batch\":");
    reveal_strlit("\"batch\":");
    reveal_strlit("}");
    reveal_strlit("\n");
    let line = line_text(wall_ts, log_ts, seq, batch);
    let w = text::decimal(wall_ts as nat);
    let l = match log_ts {
        Some(t) => text::decimal(t as nat),
        None => "null"@,
    };
    let s = text::decimal(seq as nat);
    let comma = seq![','];
    let a = "\"wall_ts\":"@ + w;
    let b = "\"log_ts\":"@ + l;
    let c = "\"seq\":"@ + s;
    let d = "\"batch\":"@ + batch;
    let end = "}"@ + "\n"@;
    let start = seq!['{'];
    assert("{\"wall_ts\":"@ =~= start + "\"wall_ts\":"@);
    assert(",\"log_ts\":"@ =~= comma + "\"log_ts\":"@);
    assert(",\"seq\":"@ =~= comma + "\"seq\":"@);
    assert(",\"batch\":"@ =~= comma + "\"batch\":"@);
    assert(line =~= start + a + comma + b + comma + c + comma + d + end);
    assert(line =~= start + a + (comma + b + comma + c + comma + d + end));
    assert(line =~= (start + a + comma) + b + (comma + c + comma + d + end));
    assert(line =~= (start + a + comma + b + comma) + c + (comma + d + end));
    assert(line =~= (start + a + comma + b + comma + c + comma) + d + end);
    if log_ts is None {
        assert(b =~= "\"log_ts\":null"@);
    }
}

} // verus!
