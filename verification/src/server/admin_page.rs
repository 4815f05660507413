//! The fixed text of the admin panel's page.
use vstd::prelude::*;

verus! {

/// The page, cut where the number of streams, the number of players, both once
/// more, and the rows of the table belong.
pub const PAGE: [&'static str; 6] = [
    r#"<!DOCTYPE html>
<html lang="en">
<head>
<meta charset="UTF-8">
<meta name="viewport" content="width=device-width,initial-scale=1">
<title>froklog — Admin</title>
<style>
*{box-sizing:border-box;margin:0;padding:0}
body{background:#0f1117;color:#cdd6f4;font-family:'Segoe UI',system-ui,sans-serif;padding:2rem}
.top-bar{display:flex;justify-content:space-between;align-items:flex-start;gap:1rem;margin-bottom:1rem}
h1{font-size:1.4rem;color:#89b4fa}
h1 span{color:#6c7086;font-weight:400;font-size:1rem;margin-left:.5rem}
.count{font-size:.85rem;color:#6c7086;margin-top:.3rem}
#search{background:#1e1e2e;color:#cdd6f4;border:1px solid #45475a;border-radius:6px;padding:.45rem .8rem;font-size:.85rem;width:280px;outline:none;margin-top:.1rem}
#search:focus{border-color:#89b4fa}
#search::placeholder{color:#6c7086}
[hidden]{display:none!important}
table{width:100%;border-collapse:collapse;background:#1e1e2e;border-radius:8px;overflow:hidden}
th{background:#313244;color:#a6adc8;font-size:.75rem;text-transform:uppercase;letter-spacing:.05em;padding:.6rem 1rem;text-align:left}
td{padding:.6rem 1rem;border-top:1px solid #313244;vertical-align:middle;white-space:nowrap}
tr:hover td{background:#262637}
tr.game-hdr td{background:#1a1a2e;color:#f38ba8;font-weight:700;font-size:.9rem;letter-spacing:.06em;text-transform:uppercase;border-top:3px solid #313244;padding:.55rem 1rem;cursor:pointer;user-select:none}
tr.game-hdr:hover td{background:#23233e}
tr.server-hdr td{background:#222233;color:#89dceb;font-weight:600;font-size:.82rem;letter-spacing:.05em;text-transform:uppercase;border-top:1px solid #313244;padding:.45rem 1rem .45rem 2rem;cursor:pointer;user-select:none}
tr.server-hdr:hover td{background:#2a2a3f}
tr.player-hdr td{background:#2a2a3d;color:#cba6f7;font-weight:600;font-size:.8rem;letter-spacing:.04em;text-transform:uppercase;border-top:1px solid #45475a;padding:.4rem 1rem .4rem 3rem;cursor:pointer;user-select:none}
tr.player-hdr:hover td{background:#333348}
.chevron{display:inline-block;font-size:.65rem;margin-right:.45rem;opacity:.6;vertical-align:middle}
.mono{font-family:monospace;font-size:.85rem;color:#a6e3a1}
.ts{font-size:.82rem;color:#a6adc8}
.num{font-size:.85rem;text-align:right}
.dur{color:#f9e2af}
.live{color:#a6e3a1;font-weight:600}
.offline{color:#6c7086}
.pub-yes{color:#89dceb;font-weight:600}
.pub-no{color:#45475a}
.empty{text-align:center;color:#6c7086;padding:2rem}
tr.live-row td{background:#1e2a1e}
tr.live-row td:first-child{border-left:3px solid #a6e3a1}
tr.live-row:hover td{background:#243024}
a{color:#89b4fa;text-decoration:none}
a:hover{text-decoration:underline}
</style>
</head>
<body>
<div class="top-bar">
  <div>
    <h1>froklog <span>admin</span></h1>
    <p class="count" id="count-line" data-full=""#,
    r#" stream(s) across "#,
    r#" player(s)">"#,
    r#" stream(s) across "#,
    r#" player(s)</p>
  </div>
  <div>
    <input type="search" id="search" placeholder="Filter by player, server, stream ID, live, public&#8230;" autocomplete="off" spellcheck="false">
  </div>
</div>
<table>
  <thead>
    <tr>
      <th>Stream ID</th>
      <th>First Seen</th>
      <th>Last Activity</th>
      <th style="text-align:right">Duration</th>
      <th style="text-align:right">Batches</th>
      <th style="text-align:right">Size</th>
      <th>Status</th>
      <th>Public</th>
      <th>Actions</th>
    </tr>
  </thead>
  <tbody>
"#,
    r#"  </tbody>
</table>
<script>
const collapsed = {};
function updateVisibility() {
    const q = document.getElementById('search').value.toLowerCase().trim();
    const searching = q.length > 0;
    const streamRows = [...document.querySelectorAll('tr.stream-row')];

    streamRows.forEach(row => {
        const {gid, sid, pid} = row.dataset;
        row.hidden = searching
            ? !row.dataset.search.includes(q)
            : !!(collapsed['g'+gid] || collapsed['s'+gid+'.'+sid] || collapsed['p'+gid+'.'+sid+'.'+pid]);
    });

    document.querySelectorAll('tr.player-hdr').forEach(row => {
        const {gid, sid, pid} = row.dataset;
        if (searching) {
            row.hidden = !streamRows.some(r => !r.hidden && r.dataset.gid===gid && r.dataset.sid===sid && r.dataset.pid===pid);
        } else {
            row.hidden = !!(collapsed['g'+gid] || collapsed['s'+gid+'.'+sid]);
        }
        row.querySelector('.chevron').textContent = collapsed['p'+gid+'.'+sid+'.'+pid] ? '▶' : '▼';
    });

    document.querySelectorAll('tr.server-hdr').forEach(row => {
        const {gid, sid} = row.dataset;
        if (searching) {
            row.hidden = !streamRows.some(r => !r.hidden && r.dataset.gid===gid && r.dataset.sid===sid);
        } else {
            row.hidden = !!collapsed['g'+gid];
        }
        row.querySelector('.chevron').textContent = collapsed['s'+gid+'.'+sid] ? '▶' : '▼';
    });

    document.querySelectorAll('tr.game-hdr').forEach(row => {
        const {gid} = row.dataset;
        if (searching) {
            row.hidden = !streamRows.some(r => !r.hidden && r.dataset.gid===gid);
        } else {
            row.hidden = false;
        }
        row.querySelector('.chevron').textContent = collapsed['g'+gid] ? '▶' : '▼';
    });

    const vis = streamRows.filter(r => !r.hidden).length;
    const tot = streamRows.length;
    const countEl = document.getElementById('count-line');
    if (searching) {
        countEl.textContent = vis + ' of ' + tot + ' stream(s) matching';
    } else {
        countEl.textContent = countEl.dataset.full;
    }
}
function toggleGame(gi) { collapsed['g'+gi] = !collapsed['g'+gi]; updateVisibility(); }
function toggleServer(gi,si) { const k='s'+gi+'.'+si; collapsed[k]=!collapsed[k]; updateVisibility(); }
function togglePlayer(gi,si,pi) { const k='p'+gi+'.'+si+'.'+pi; collapsed[k]=!collapsed[k]; updateVisibility(); }
document.addEventListener('DOMContentLoaded', () => {
    document.getElementById('search').addEventListener('input', updateVisibility);
});
</script>
</body>
</html>"#,
];

} // verus!
