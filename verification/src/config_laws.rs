//! What holds of the addresses and names that the settings give.
use vstd::prelude::*;

use crate::client;
use crate::config;
use crate::config::effective_name;
use crate::config::ingest_url_of;
use crate::config::is_active;
use crate::config::player_in;
use crate::config::player_url_of;
use crate::config::server_in;
use crate::config::stem_of_name;
use crate::config::viewer_url_of;
use crate::config::ws_base;
use crate::config::Config;
use crate::config::LogProfile;
use crate::config::LogWatchMode;
use crate::text;
use crate::text_laws;
use crate::text_laws::occurs;
use crate::text_laws::repeated;

verus! {

/// Whether a text begins with another.
pub open spec fn begins(s: Seq<char>, p: Seq<char>) -> bool {
    p.len() <= s.len() && s.take(p.len() as int) == p
}

proof fn replacing_behind_keeps_the_start(a: Seq<char>, s: Seq<char>, p: Seq<char>, w: Seq<char>)
    requires
        forall|j: int| 0 <= j < a.len() ==> !#[trigger] text::occurs_at(a + s, p, j),
    ensures
        text::replaced_first(a + s, p, w) == a + text::replaced_first(s, p, w),
    decreases a.len(),
{
    if a.len() == 0 {
        assert(a + s =~= s);
        assert(a + text::replaced_first(s, p, w) =~= text::replaced_first(s, p, w));
    } else {
        let b = a.drop_first();
        let t = a + s;
        assert(t.skip(1) =~= b + s);
        assert(!text::occurs_at(t, p, 0));
        assert forall|j: int| 0 <= j < b.len() implies !#[trigger] text::occurs_at(b + s, p, j) by {
            assert(!text::occurs_at(t, p, j + 1));
            if j + 1 + p.len() <= t.len() {
                assert((b + s).subrange(j, j + p.len()) =~= t.subrange(j + 1, j + 1 + p.len()));
            }
        }
        replacing_behind_keeps_the_start(b, s, p, w);
        assert(seq![t[0]] + (b + text::replaced_first(s, p, w)) =~= a + text::replaced_first(
            s,
            p,
            w,
        ));
        if p.len() == 0 {
            assert(text::occurs_at(t, p, 0)) by {
                assert(t.subrange(0, 0) =~= p);
            }
        }
    }
}

/// The scheme of a server's address becomes that of a web socket, and a secure
/// one stays secure: `http://` becomes `ws://`, and `https://` becomes `wss://`.
/// What stands behind it is kept where it names no such scheme itself.
pub proof fn schemes_become_those_of_web_sockets(host: Seq<char>)
    ensures
        begins(ws_base("http://"@ + host), "ws://"@),
        begins(ws_base("https://"@ + host), "wss://"@),
        !occurs(host, "http://"@) && !occurs(host, "https://"@) ==> {
            &&& ws_base("http://"@ + host) == "ws://"@ + host
            &&& ws_base("https://"@ + host) == "wss://"@ + host
        },
{
    reveal_strlit("http://");
    reveal_strlit("https://");
    reveal_strlit("ws://");
    reveal_strlit("wss://");
    let http = "http://"@;
    let https = "https://"@;
    let ws = "ws://"@;
    let wss = "wss://"@;
    assert(http =~= seq!['h', 't', 't', 'p', ':', '/', '/']);
    assert(https =~= seq!['h', 't', 't', 'p', 's', ':', '/', '/']);
    assert(ws =~= seq!['w', 's', ':', '/', '/']);
    assert(wss =~= seq!['w', 's', 's', ':', '/', '/']);
    // The plain scheme.
    let plain = http + host;
    assert forall|j: int| 0 <= j < http.len() implies !#[trigger] text::occurs_at(
        plain,
        https,
        j,
    ) by {
        if text::occurs_at(plain, https, j) {
            assert(plain.subrange(j, j + https.len())[0] == 'h');
            assert(plain.subrange(j, j + https.len())[4] == 's');
            assert(plain[j] == 'h');
            assert(plain[j] == http[j]);
            assert(j == 0);
            assert(plain[4] == http[4]);
        }
    }
    replacing_behind_keeps_the_start(http, host, https, wss);
    let rest = text::replaced_first(host, https, wss);
    let first = http + rest;
    assert(text::replaced_first(plain, https, wss) == first);
    assert(text::occurs_at(first, http, 0)) by {
        assert(first.subrange(0, http.len() as int) =~= http);
    }
    assert(first.skip(http.len() as int) =~= rest);
    assert(ws_base(plain) == ws + rest);
    assert((ws + rest).take(ws.len() as int) =~= ws);
    // The secure one.
    let secure = https + host;
    assert(text::occurs_at(secure, https, 0)) by {
        assert(secure.subrange(0, https.len() as int) =~= https);
    }
    assert(secure.skip(https.len() as int) =~= host);
    let second = wss + host;
    assert(text::replaced_first(secure, https, wss) == second);
    assert forall|j: int| 0 <= j < wss.len() implies !#[trigger] text::occurs_at(
        second,
        http,
        j,
    ) by {
        if text::occurs_at(second, http, j) {
            assert(second.subrange(j, j + http.len())[0] == 'h');
            assert(second[j] == wss[j]);
        }
    }
    replacing_behind_keeps_the_start(wss, host, http, ws);
    let tail = text::replaced_first(host, http, ws);
    assert(ws_base(secure) == wss + tail);
    assert((wss + tail).take(wss.len() as int) =~= wss);
    if !occurs(host, http) && !occurs(host, https) {
        text_laws::absent_texts_are_not_replaced(host, https, wss);
        text_laws::absent_texts_are_not_replaced(host, http, ws);
    }
}

/// A client pushes to `/ingest/` and the stream's identifier at the server's own
/// host, over a web socket that is secure where the server's address is. How
/// many slashes the address ends in does not count.
pub proof fn clients_push_over_a_web_socket(host: Seq<char>, slashes: nat, id: Seq<char>)
    requires
        host.len() > 0,
        host.last() != '/',
        !occurs(host + repeated('/', slashes), "http://"@),
        !occurs(host + repeated('/', slashes), "https://"@),
    ensures
        ingest_url_of("http://"@ + host + repeated('/', slashes), id) == "ws://"@ + host
            + "/ingest/"@ + id,
        ingest_url_of("https://"@ + host + repeated('/', slashes), id) == "wss://"@ + host
            + "/ingest/"@ + id,
{
    let tail = repeated('/', slashes);
    schemes_become_those_of_web_sockets(host + tail);
    assert("http://"@ + (host + tail) =~= "http://"@ + host + tail);
    assert("https://"@ + (host + tail) =~= "https://"@ + host + tail);
    assert("ws://"@ + (host + tail) =~= "ws://"@ + host + tail);
    assert("wss://"@ + (host + tail) =~= "wss://"@ + host + tail);
    text_laws::trailing_is_taken_off("ws://"@ + host, '/', slashes);
    text_laws::trailing_is_taken_off("wss://"@ + host, '/', slashes);
}

/// The same of the settings as a whole: with a server and a stream there is an
/// address to push to, and without either there is none.
pub proof fn pushing_needs_a_server_and_a_stream<F>(c: Config<F>, host: Seq<char>)
    ensures
        c.spec_ingest_url() is Some <==> c.server_url is Some && c.stream_id is Some,
        c.spec_viewer_url() is Some <==> c.server_url is Some && c.stream_id is Some
            && c.view_token is Some,
        c.server_url is Some && c.stream_id is Some && host.len() > 0 && host.last() != '/'
            && !occurs(host, "http://"@) && !occurs(host, "https://"@) ==> {
            &&& c.server_url->0@ == "http://"@ + host ==> c.spec_ingest_url() == Some(
                "ws://"@ + host + "/ingest/"@ + c.stream_id->0@,
            )
            &&& c.server_url->0@ == "https://"@ + host ==> c.spec_ingest_url() == Some(
                "wss://"@ + host + "/ingest/"@ + c.stream_id->0@,
            )
        },
        c.server_url is Some && c.stream_id is Some ==> {
            &&& begins(c.server_url->0@, "http://"@) && host
                == c.server_url->0@.skip(7) ==> begins(ws_base(c.server_url->0@), "ws://"@)
            &&& begins(c.server_url->0@, "https://"@) && host
                == c.server_url->0@.skip(8) ==> begins(ws_base(c.server_url->0@), "wss://"@)
        },
{
    reveal_strlit("http://");
    reveal_strlit("https://");
    schemes_become_those_of_web_sockets(host);
    if c.server_url is Some && c.stream_id is Some {
        let base = c.server_url->0@;
        if begins(base, "http://"@) && host == base.skip(7) {
            assert(base =~= "http://"@ + host) by {
                assert(base =~= base.take(7) + base.skip(7));
            }
        }
        if begins(base, "https://"@) && host == base.skip(8) {
            assert(base =~= "https://"@ + host) by {
                assert(base =~= base.take(8) + base.skip(8));
            }
        }
        if host.len() > 0 && host.last() != '/' && !occurs(host, "http://"@) && !occurs(
            host,
            "https://"@,
        ) {
            assert(host + repeated('/', 0) =~= host);
            assert("http://"@ + host + repeated('/', 0) =~= "http://"@ + host);
            assert("https://"@ + host + repeated('/', 0) =~= "https://"@ + host);
            clients_push_over_a_web_socket(host, 0, c.stream_id->0@);
        }
    }
}

/// Viewers watch at the server's own address, whatever its scheme and however
/// many slashes it ends in: a private stream by its identifier and token, a
/// public one by game, server and player, in this order.
pub proof fn viewers_watch_at_the_servers_address(
    host: Seq<char>,
    slashes: nat,
    a: Seq<char>,
    b: Seq<char>,
    c: Seq<char>,
)
    requires
        host.len() > 0 ==> host.last() != '/',
    ensures
        viewer_url_of(host + repeated('/', slashes), a, b) == host + "/stream/"@ + a + "?vtok="@
            + b,
        player_url_of(host + repeated('/', slashes), a, b, c) == host + "/player/"@ + a + "/"@ + b
            + "/"@ + c,
{
    text_laws::trailing_is_taken_off(host, '/', slashes);
}

// ── Names ───────────────────────────────────────────────────────────────────

/// A log file named by a prefix, a player and a server, with underscores between
/// them, is that player's on that server. The server's name can hold further
/// underscores, the player's cannot.
pub proof fn log_files_name_player_and_server(
    prefix: Seq<char>,
    player: Seq<char>,
    server: Seq<char>,
)
    requires
        !text::has_char(prefix, '_'),
        !text::has_char(player, '_'),
    ensures
        player_in(Some(prefix + seq!['_'] + (player + seq!['_'] + server))) == Some(player),
        server_in(Some(prefix + seq!['_'] + (player + seq!['_'] + server))) == Some(server),
{
    reveal_strlit("_");
    let rest = player + seq!['_'] + server;
    text_laws::texts_split_at_the_separator(prefix, '_', rest);
    text_laws::texts_split_at_the_separator(player, '_', server);
    let s = prefix + seq!['_'] + rest;
    let p = text::pieces(server, '_');
    text::pieces_nonempty(server, '_');
    let parts = text::pieces(s, '_');
    assert(parts =~= seq![prefix, player] + p);
    assert(parts.skip(2) =~= p);
    text::join_of_split(server, '_');
    assert("_"@ =~= seq!['_']);
}

/// Without two underscores a file's name holds neither a player nor a server.
pub proof fn plain_files_name_nobody(a: Seq<char>, b: Seq<char>)
    requires
        !text::has_char(a, '_'),
        !text::has_char(b, '_'),
    ensures
        player_in(Some(a)) is None,
        server_in(Some(a)) is None,
        player_in(Some(a + seq!['_'] + b)) is None,
        server_in(Some(a + seq!['_'] + b)) is None,
        player_in(None) is None,
        server_in(None) is None,
{
    text_laws::texts_split_at_the_separator(a, '_', b);
    text_laws::texts_split_at_the_separator(b, '_', b);
}

/// A file's extension is no part of its stem: what stands before the last dot is,
/// with all earlier dots.
pub proof fn extensions_are_taken_off(stem: Seq<char>, extension: Seq<char>)
    requires
        stem.len() > 0,
        !text::has_char(extension, '.'),
    ensures
        stem_of_name(stem + seq!['.'] + extension) == stem,
        stem_of_name(seq!['.'] + extension) == seq!['.'] + extension,
        stem_of_name(extension) == extension,
{
    last_dot_found(stem, extension);
    last_dot_found(Seq::empty(), extension);
    assert(Seq::<char>::empty() + seq!['.'] + extension =~= seq!['.'] + extension);
    no_dot_found(extension);
    assert((stem + seq!['.'] + extension).take(stem.len() as int) =~= stem);
}

proof fn last_dot_found(a: Seq<char>, b: Seq<char>)
    requires
        !text::has_char(b, '.'),
    ensures
        config::last_dot(a + seq!['.'] + b) == Some(a.len() as int),
    decreases b.len(),
{
    let s = a + seq!['.'] + b;
    if b.len() > 0 {
        assert(b[b.len() - 1] != '.');
        assert(s.drop_last() =~= a + seq!['.'] + b.drop_last());
        assert(!text::has_char(b.drop_last(), '.')) by {
            if text::has_char(b.drop_last(), '.') {
                let i = choose|i: int|
                    0 <= i < b.drop_last().len() && b.drop_last()[i] == '.';
                assert(b[i] == '.');
            }
        }
        last_dot_found(a, b.drop_last());
    }
}

proof fn no_dot_found(b: Seq<char>)
    requires
        !text::has_char(b, '.'),
    ensures
        config::last_dot(b) is None,
    decreases b.len(),
{
    if b.len() > 0 {
        assert(b[b.len() - 1] != '.');
        assert(!text::has_char(b.drop_last(), '.')) by {
            if text::has_char(b.drop_last(), '.') {
                let i = choose|i: int|
                    0 <= i < b.drop_last().len() && b.drop_last()[i] == '.';
                assert(b[i] == '.');
            }
        }
        no_dot_found(b.drop_last());
    }
}

/// What somebody typed in as a name goes before what the file's name says, unless
/// it is empty.
pub proof fn typed_names_come_first(typed: Seq<char>, read: Seq<char>)
    ensures
        typed.len() > 0 ==> effective_name(Some(typed), Some(read)) == typed
            && effective_name(Some(typed), None) == typed,
        effective_name(Some(Seq::empty()), Some(read)) == read,
        effective_name(None, Some(read)) == read,
        effective_name(None, None).len() == 0,
{
}

/// The profile whose file was written last is watched, a pinned one whenever its
/// file was written; among profiles there is always one that is.
pub proof fn the_latest_or_the_pinned_is_watched(
    profiles: Seq<LogProfile>,
    mode: LogWatchMode,
    times: Seq<Option<i128>>,
    r: Option<usize>,
    i: int,
)
    requires
        is_active(profiles, mode, times, r),
        times.len() == profiles.len(),
        0 <= i < profiles.len(),
    ensures
        r is Some && r->0 < profiles.len(),
        mode is Auto && times[i] is Some ==> times[r->0 as int] is Some && times[r->0 as int]->0
            >= times[i]->0,
        mode matches LogWatchMode::Pinned(name) ==> profiles[i].name@ == name@ ==> r->0 <= i
            && profiles[r->0 as int].name@ == name@,
{
}

proof fn last_piece(a: Seq<char>, c: char, b: Seq<char>)
    requires
        !text::has_char(b, c),
    ensures
        text::pieces(a + seq![c] + b, c).last() == b,
        text::pieces(a + seq![c] + b, c).len() > 1,
        text::pieces(a + seq![c] + b, c).drop_last() == text::pieces(a, c),
    decreases b.len(),
{
    let s = a + seq![c] + b;
    text::pieces_nonempty(a, c);
    if b.len() == 0 {
        assert(s.drop_last() =~= a);
        assert(s.last() == c);
        assert(b =~= Seq::<char>::empty());
        assert(text::pieces(s, c).drop_last() =~= text::pieces(a, c));
    } else {
        let d = b.drop_last();
        assert(b[b.len() - 1] != c);
        assert(!text::has_char(d, c)) by {
            if text::has_char(d, c) {
                let i = choose|i: int| 0 <= i < d.len() && d[i] == c;
                assert(b[i] == c);
            }
        }
        last_piece(a, c, d);
        assert(s.drop_last() =~= a + seq![c] + d);
        assert(s.last() == b.last());
        assert(d.push(b.last()) =~= b);
        assert(text::pieces(s, c).drop_last() =~= text::pieces(a + seq![c] + d, c).drop_last());
    }
}

/// A file is named by what follows the last slash of its path; slashes at the end
/// do not count. On Windows backslashes count as slashes.
pub proof fn files_are_named_behind_the_last_slash(folder: Seq<char>, name: Seq<char>)
    requires
        name.len() > 0,
        !text::has_char(name, '/'),
        name != seq!['.'],
        name != seq!['.', '.'],
    ensures
        config::unix_file_name(folder + seq!['/'] + name) == Some(name),
        config::unix_file_name(folder + seq!['/'] + name + seq!['/']) == Some(name),
        !text::has_char(name, '\\') && !text::has_char(name, ':') && name.len() > 0
            ==> config::windows_file_name(folder + seq!['\\'] + name) == Some(name),
{
    let path = folder + seq!['/'] + name;
    last_piece(folder, '/', name);
    let none = Seq::<char>::empty();
    last_piece(path, '/', none);
    assert(path + seq!['/'] + none =~= path + seq!['/']);
    if !text::has_char(name, '\\') && !text::has_char(name, ':') {
        let wide = folder + seq!['\\'] + name;
        let plain = config::without_drive(wide);
        let start: int = if wide.len() >= 2 && config::is_letter(wide[0]) && wide[1] == ':' {
            2
        } else {
            0
        };
        if start == 2 && folder.len() == 1 {
            assert(wide[1] == '\\');
        }
        if start == 2 && folder.len() == 0 {
            assert(wide[0] == '\\');
        }
        let before = folder.skip(start).map_values(
            |c: char|
                if c == '\\' {
                    '/'
                } else {
                    c
                },
        );
        assert forall|k: int| 0 <= k < name.len() implies name[k] != '\\' by {
            if name[k] == '\\' {
                assert(text::has_char(name, '\\'));
            }
        }
        assert(plain =~= before + seq!['/'] + name);
        last_piece(before, '/', name);
    }
}

/// The log of a player in some folder is theirs on their server, whatever the
/// folder is.
pub proof fn logs_in_any_folder_name_their_player(
    folder: Seq<char>,
    player: Seq<char>,
    server: Seq<char>,
)
    requires
        !text::has_char(player, '_'),
        !text::has_char(player, '/'),
        !text::has_char(server, '/'),
    ensures
        ({
            let stem = "eqlog"@ + seq!['_'] + (player + seq!['_'] + server);
            let path = folder + seq!['/'] + (stem + seq!['.'] + "txt"@);
            &&& config::opt_stem(config::unix_file_name(path)) == Some(stem)
            &&& player_in(config::opt_stem(config::unix_file_name(path))) == Some(player)
            &&& server_in(config::opt_stem(config::unix_file_name(path))) == Some(server)
        }),
{
    reveal_strlit("eqlog");
    reveal_strlit("txt");
    let stem = "eqlog"@ + seq!['_'] + (player + seq!['_'] + server);
    let name = stem + seq!['.'] + "txt"@;
    assert(!text::has_char("eqlog"@, '_'));
    assert(!text::has_char("txt"@, '.'));
    assert(!text::has_char(name, '/')) by {
        if text::has_char(name, '/') {
            let i = choose|i: int| 0 <= i < name.len() && name[i] == '/';
            let p = player.len() as int;
            let s = server.len() as int;
            if i < 6 {
                assert("eqlog"@.len() == 5);
                assert(name[i] == stem[i]);
                assert(i < 5 ==> stem[i] == "eqlog"@[i]);
            } else if i < 6 + p {
                assert(name[i] == player[i - 6]);
            } else if i == 6 + p {
                assert(name[i] == '_');
            } else if i < 7 + p + s {
                assert(name[i] == server[i - 7 - p]);
            } else if i == 7 + p + s {
                assert(name[i] == '.');
            } else {
                assert(name[i] == "txt"@[i - 8 - p - s]);
            }
        }
    }
    assert(name.len() >= 5);
    files_are_named_behind_the_last_slash(folder, name);
    extensions_are_taken_off(stem, "txt"@);
    log_files_name_player_and_server("eqlog"@, player, server);
}

/// Without settings nothing is logged to a server and no log is followed; the
/// combined window looks like the two that it stands for, no window is locked or
/// placed, and everything is read aloud.
pub proof fn defaults_are_safe_and_even<F>(
    c: Config<F>,
    hold: F,
    merged_hold: F,
    notice_hold: F,
    remote: bool,
)
    requires
        c.has_defaults(hold, merged_hold, notice_hold, remote),
    ensures
        c.spec_ingest_url() is None,
        c.spec_viewer_url() is None,
        c.log_profiles@.len() == 0,
        c.overlay_merged_start_font_size == c.overlay_start_font_size,
        c.overlay_merged_max_font_size == c.overlay_max_font_size,
        c.overlay_merged_fly_ms == c.overlay_fly_ms,
        c.overlay_merged_alpha == c.overlay_alpha,
        c.overlay_merged_history_font_size == c.overlay_history_font_size,
        c.overlay_merged_history_idle_secs == c.overlay_history_idle_secs,
        c.overlay_merged_history_max_entries == c.overlay_history_max_entries,
        c.overlay_merged_history_max_age_mins == c.overlay_history_max_age_mins,
        c.meter_font_size == c.overlay_history_font_size,
        c.overlay_start_font_size < c.overlay_max_font_size,
        !c.overlay_alert.locked && !c.overlay_history.locked && !c.overlay_meter.locked
            && !c.overlay_merged.locked && !c.overlay_notice.locked,
        c.overlay_history.enabled && !c.overlay_alert.enabled && !c.overlay_meter.enabled
            && !c.overlay_merged.enabled && !c.overlay_notice.enabled,
        c.tts_read_emergency && c.tts_read_operational && c.tts_read_ambient,
{
}

/// The last dot of a name stands before all that holds no dot, and is missing
/// where nothing does.
pub proof fn last_dots_are_found(a: Seq<char>, b: Seq<char>)
    requires
        !text::has_char(b, '.'),
    ensures
        config::last_dot(a + seq!['.'] + b) == Some(a.len() as int),
        config::last_dot(b) is None,
{
    last_dot_found(a, b);
    no_dot_found(b);
}

/// A public stream has an address just where its game, its server and its player
/// are known; it names the game, then the server, then the player, below the
/// server's own address.
pub proof fn public_addresses_name_game_server_and_player(
    host: Seq<char>,
    slashes: nat,
    game: Seq<char>,
    server: Seq<char>,
    player: Seq<char>,
)
    requires
        host.len() > 0 ==> host.last() != '/',
    ensures
        ({
            let base = host + repeated('/', slashes);
            &&& config::public_url_of(base, None, server, player) is None
            &&& config::public_url_of(base, Some(game), server, player) is None <==> server.len()
                == 0 || player.len() == 0
            &&& server.len() > 0 && player.len() > 0 ==> config::public_url_of(
                base,
                Some(game),
                server,
                player,
            ) == Some(host + "/player/"@ + game + "/"@ + server + "/"@ + player)
        }),
{
    viewers_watch_at_the_servers_address(host, slashes, game, server, player);
}

/// A profile that is made of a log goes by its player and then its server, where
/// both are known, and else by the log's own name.
pub proof fn profiles_are_named_after_their_player(
    name: Seq<char>,
    player: Seq<char>,
    server: Seq<char>,
    file: Option<Seq<char>>,
)
    ensures
        config::named_after(name, Some(player), Some(server), file) ==> player.is_prefix_of(name)
            && name.len() == player.len() + server.len() + 4 && name.subrange(
            player.len() as int + 3,
            player.len() as int + 3 + server.len(),
        ) == server,
        config::named_after(name, None, Some(server), file) && file is Some ==> name == file->0,
        config::named_after(name, Some(player), None, file) && file is Some ==> name == file->0,
{
    reveal_strlit("  (");
    reveal_strlit(")");
    if config::named_after(name, Some(player), Some(server), file) {
        let n = player.len() as int;
        assert(name.subrange(0, n) =~= player);
        assert(name.subrange(n + 3, n + 3 + server.len()) =~= server);
    }
}

/// Events are pushed to a server just where that is switched on, there is a log to
/// follow, and the stream is registered; they go to the stream's own address, with
/// its own token.
pub proof fn pushing_is_the_users_choice<F>(c: Config<F>)
    ensures
        client::remote_target_of(c) is Some <==> c.remote_logging_enabled
            && c.log_profiles@.len() > 0 && c.server_url is Some && c.stream_id is Some
            && c.stream_token is Some,
        client::remote_target_of(c) matches Some((url, token)) ==> token == c.stream_token->0@
            && Some(url) == c.spec_ingest_url(),
{
}

} // verus!
