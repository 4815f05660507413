//! What holds of the admin panel, whatever the streams: how they are grouped and
//! ordered, and how times and sizes are read.
use vstd::prelude::*;

use crate::maps;
use crate::maps::Ranked;
use crate::number;
use crate::server::access;
use crate::server::admin::duration_text;
use crate::server::admin::escaped;
use crate::server::admin::game_row;
use crate::server::admin::game_rows;
use crate::server::admin::group_index;
use crate::server::admin::groups_of;
use crate::server::admin::is_game;
use crate::server::admin::is_panel;
use crate::server::admin::is_player;
use crate::server::admin::is_server;
use crate::server::admin::key_at;
use crate::server::admin::player_row;
use crate::server::admin::player_rows;
use crate::server::admin::search_text;
use crate::server::admin::server_row;
use crate::server::admin::server_rows;
use crate::server::admin::size_text;
use crate::server::admin::span_of;
use crate::server::admin::stream_row;
use crate::server::admin::stream_rows;
use crate::server::admin::time_text;
use crate::server::admin::top_rank;
use crate::server::admin::Level;
use crate::server::admin::STREAM_ROW;
use crate::server::admin::{FlatStream, GameGroup, PlayerGroup, ServerGroup, StreamDisplay};
use crate::text;

verus! {

// ── Groups ──────────────────────────────────────────────────────────────────

/// The streams of a list that have a key, in the order of the list.
pub open spec fn with_key(s: Seq<FlatStream>, level: Level, key: Seq<char>) -> Seq<FlatStream> {
    s.filter(|r: FlatStream| key_at(r, level) == key)
}

proof fn group_index_is_first(groups: Seq<Seq<FlatStream>>, level: Level, key: Seq<char>)
    ensures
        group_index(groups, level, key) <= groups.len(),
        group_index(groups, level, key) < groups.len() ==> key_at(
            groups[group_index(groups, level, key) as int][0],
            level,
        ) == key,
        forall|g: int|
            0 <= g < group_index(groups, level, key) ==> key_at(
                (#[trigger] groups[g])[0],
                level,
            ) != key,
    decreases groups.len(),
{
    if groups.len() > 0 && key_at(groups.first()[0], level) != key {
        let rest = groups.drop_first();
        group_index_is_first(rest, level, key);
        assert forall|g: int| 0 <= g < group_index(groups, level, key) implies key_at(
            (#[trigger] groups[g])[0],
            level,
        ) != key by {
            if g > 0 {
                assert(rest[g - 1] == groups[g]);
            }
        }
    }
}

proof fn filtered_from(s: Seq<FlatStream>, p: spec_fn(FlatStream) -> bool, i: int)
    requires
        0 <= i < s.filter(p).len(),
    ensures
        s.contains(s.filter(p)[i]),
    decreases s.len(),
{
    reveal(Seq::filter);
    if s.len() > 0 {
        let d = s.drop_last();
        if i < d.filter(p).len() {
            filtered_from(d, p, i);
            let k = choose|k: int| 0 <= k < d.len() && d[k] == d.filter(p)[i];
            assert(s[k] == s.filter(p)[i]);
        } else {
            assert(s[s.len() - 1] == s.filter(p)[i]);
        }
    }
}

/// A group holds all the streams of one key, without regard to case, in the
/// order of the list, and nothing else; no two groups have the same key, and
/// every stream is in the group of its key.
pub proof fn groups_are_of_one_key(s: Seq<FlatStream>, level: Level)
    ensures
        forall|g: int|
            0 <= g < groups_of(s, level).len() ==> {
                let group = #[trigger] groups_of(s, level)[g];
                group.len() > 0 && group == with_key(s, level, key_at(group[0], level))
            },
        forall|g: int, h: int|
            0 <= g < h < groups_of(s, level).len() ==> key_at(
                (#[trigger] groups_of(s, level)[g])[0],
                level,
            ) != key_at((#[trigger] groups_of(s, level)[h])[0], level),
        forall|i: int|
            0 <= i < s.len() ==> exists|g: int|
                0 <= g < groups_of(s, level).len() && key_at(
                    (#[trigger] groups_of(s, level)[g])[0],
                    level,
                ) == key_at(#[trigger] s[i], level),
    decreases s.len(),
{
    reveal(Seq::filter);
    if s.len() > 0 {
        let d = s.drop_last();
        let x = s.last();
        let key = key_at(x, level);
        let before = groups_of(d, level);
        let after = groups_of(s, level);
        groups_are_of_one_key(d, level);
        group_index_is_first(before, level, key);
        let at = group_index(before, level, key) as int;
        assert forall|g: int| 0 <= g < after.len() implies {
            let group = #[trigger] after[g];
            group.len() > 0 && group == with_key(s, level, key_at(group[0], level))
        } by {
            if g < before.len() {
                assert(before[g].len() > 0);
                assert(before[g] == with_key(d, level, key_at(before[g][0], level)));
                if g == at {
                    assert(after[g] == before[g].push(x));
                    assert(after[g][0] == before[g][0]);
                } else {
                    assert(after[g] == before[g]);
                    if key_at(before[g][0], level) == key {
                        assert(g > at);
                        assert(key_at(before[at][0], level) != key_at(before[g][0], level));
                    }
                }
            } else {
                assert(after[g] == seq![x]);
                let p = |r: FlatStream| key_at(r, level) == key;
                assert(d.filter(p) =~= Seq::<FlatStream>::empty()) by {
                    if d.filter(p).len() > 0 {
                        d.lemma_filter_pred(p, 0);
                        let y = d.filter(p)[0];
                        assert(key_at(y, level) == key);
                        filtered_from(d, p, 0);
                        let i = choose|i: int| 0 <= i < d.len() && d[i] == y;
                        assert(key_at(d[i], level) == key);
                        let h = choose|h: int|
                            0 <= h < before.len() && key_at((#[trigger] before[h])[0], level)
                                == key_at(d[i], level);
                        assert(key_at(before[h][0], level) == key);
                    }
                }
                assert(with_key(s, level, key) =~= seq![x]);
            }
        }
        assert forall|g: int, h: int| 0 <= g < h < after.len() implies key_at(
            (#[trigger] after[g])[0],
            level,
        ) != key_at((#[trigger] after[h])[0], level) by {
            assert(before[g].len() > 0);
            assert(after[g][0] == before[g][0]);
            if h < before.len() {
                assert(before[h].len() > 0);
                assert(after[h][0] == before[h][0]);
            } else {
                assert(after[h][0] == x);
            }
        }
        assert forall|i: int| 0 <= i < s.len() implies exists|g: int|
            0 <= g < after.len() && key_at((#[trigger] after[g])[0], level) == key_at(
                #[trigger] s[i],
                level,
            ) by {
            if i < d.len() {
                assert(d[i] == s[i]);
                let g = choose|g: int|
                    0 <= g < before.len() && key_at((#[trigger] before[g])[0], level) == key_at(
                        d[i],
                        level,
                    );
                assert(before[g].len() > 0);
                assert(after[g][0] == before[g][0]);
            } else if at < before.len() {
                assert(before[at].len() > 0);
                assert(after[at][0] == before[at][0]);
            } else {
                assert(after[at][0] == x);
            }
        }
    }
}

// ── Order ───────────────────────────────────────────────────────────────────

proof fn top_is_greatest<T: Ranked>(s: Seq<T>)
    ensures
        forall|i: int| 0 <= i < s.len() ==> (#[trigger] s[i]).rank() <= top_rank(s),
        s.len() > 0 ==> exists|i: int| 0 <= i < s.len() && (#[trigger] s[i]).rank() == top_rank(s),
    decreases s.len(),
{
    if s.len() > 0 {
        let d = s.drop_last();
        top_is_greatest(d);
        assert forall|i: int| 0 <= i < s.len() implies (#[trigger] s[i]).rank() <= top_rank(s) by {
            if i < d.len() {
                assert(d[i].rank() <= top_rank(d));
            }
        }
        if s.last().rank() <= top_rank(d) {
            if d.len() > 0 {
                let i = choose|i: int| 0 <= i < d.len() && (#[trigger] d[i]).rank() == top_rank(d);
                assert(s[i].rank() == top_rank(s));
            } else {
                assert(s[0].rank() == top_rank(s));
            }
        } else {
            assert(s[s.len() - 1].rank() == top_rank(s));
        }
    }
}

/// Whether a time is no earlier than another; no time at all is the earliest.
pub open spec fn no_earlier(a: Option<u64>, b: Option<u64>) -> bool {
    b is None || (a is Some && a->0 >= b->0)
}

/// A player's streams are shown with those of the most recent activity first.
pub proof fn latest_streams_come_first(rows: Seq<FlatStream>, p: PlayerGroup, i: int, j: int)
    requires
        is_player(rows, p),
        0 <= i <= j < p.streams@.len(),
    ensures
        no_earlier(p.streams@[i].last_ts, p.streams@[j].last_ts),
{
    let shown = rows.map_values(|r: FlatStream| r.display);
    maps::ranked_down_sorts(shown);
    assert(p.streams@[i].rank() >= p.streams@[j].rank());
}

/// A server's players are shown with the one of the most recent activity first:
/// for every stream of a later player there is one of an earlier player that was
/// active no earlier.
pub proof fn latest_players_come_first(
    rows: Seq<FlatStream>,
    s: ServerGroup,
    i: int,
    j: int,
    k: int,
)
    requires
        is_server(rows, s),
        0 <= i <= j < s.players@.len(),
        0 <= k < s.players@[j].streams@.len(),
        s.players@[i].streams@.len() > 0,
    ensures
        exists|m: int|
            0 <= m < s.players@[i].streams@.len() && no_earlier(
                (#[trigger] s.players@[i].streams@[m]).last_ts,
                s.players@[j].streams@[k].last_ts,
            ),
{
    let players = choose|players: Seq<PlayerGroup>|
        {
            &&& s.players@ == #[trigger] maps::ranked_down(players)
            &&& players.len() == groups_of(rows, Level::Player).len()
            &&& forall|i: int|
                0 <= i < players.len() ==> is_player(
                    groups_of(rows, Level::Player)[i],
                    #[trigger] players[i],
                )
        };
    maps::ranked_down_sorts(players);
    assert(s.players@[i].rank() >= s.players@[j].rank());
    let a = s.players@[i].streams@;
    let b = s.players@[j].streams@;
    top_is_greatest(a);
    top_is_greatest(b);
    assert(b[k].rank() <= top_rank(b));
    let m = choose|m: int| 0 <= m < a.len() && (#[trigger] a[m]).rank() == top_rank(a);
    assert(no_earlier(a[m].last_ts, b[k].last_ts));
}

/// Servers and games are shown with those of the most recent activity first, as
/// players are.
pub proof fn latest_groups_come_first(rows: Seq<FlatStream>, g: GameGroup, games: Seq<GameGroup>)
    requires
        is_game(rows, g),
        is_panel(rows, games),
    ensures
        maps::descending(g.servers@),
        maps::descending(games),
        forall|i: int|
            0 <= i < games.len() ==> (forall|k: int|
                0 <= k < games[i].servers@.len() ==> (
                #[trigger] games[i].servers@[k]).rank() <= (#[trigger] games[i]).rank()),
{
    let groups = groups_of(rows, Level::Server);
    let servers = choose|servers: Seq<ServerGroup>|
        {
            &&& g.servers@ == #[trigger] maps::ranked_down(servers)
            &&& servers.len() == groups.len()
            &&& forall|i: int|
                0 <= i < servers.len() ==> is_server(groups[i], #[trigger] servers[i])
        };
    maps::ranked_down_sorts(servers);
    let all = groups_of(rows, Level::Game);
    let unsorted = choose|unsorted: Seq<GameGroup>|
        {
            &&& games == #[trigger] maps::ranked_down(unsorted)
            &&& unsorted.len() == all.len()
            &&& forall|i: int|
                0 <= i < unsorted.len() ==> is_game(all[i], #[trigger] unsorted[i])
        };
    maps::ranked_down_sorts(unsorted);
    assert forall|i: int| 0 <= i < games.len() implies (forall|k: int|
        0 <= k < games[i].servers@.len() ==> (#[trigger] games[i].servers@[k]).rank() <= (
        #[trigger] games[i]).rank()) by {
        top_is_greatest(games[i].servers@);
    }
}

// ── Times and sizes ─────────────────────────────────────────────────────────

/// The time from the first to the last batch: put behind the first it gives the
/// last. It is known where both are.
pub proof fn spans_reach_from_first_to_last(s: StreamDisplay)
    ensures
        span_of(s) is Some <==> s.first_ts is Some && s.last_ts is Some,
        span_of(s) is Some && s.first_ts->0 <= s.last_ts->0 ==> s.first_ts->0 + span_of(s)->0
            == s.last_ts->0,
        span_of(s) is Some && s.first_ts->0 > s.last_ts->0 ==> span_of(s)->0 == 0,
{
}

/// A duration is read in its two greatest units, from days to seconds; what is
/// left below them is cut off.
pub proof fn durations_are_read_in_two_units(whole: nat, part: nat, rest: nat)
    requires
        86400 * whole + 3600 * part + rest <= u64::MAX,
    ensures
        whole > 0 && part < 24 && rest < 3600 ==> duration_text(
            Some((86400 * whole + 3600 * part + rest) as u64),
        ) == text::decimal(whole) + "d "@ + text::decimal(part) + "h"@,
        0 < whole < 24 && part < 60 && rest < 60 ==> duration_text(
            Some((3600 * whole + 60 * part + rest) as u64),
        ) == text::decimal(whole) + "h "@ + text::decimal(part) + "m"@,
        0 < whole < 60 && part < 60 ==> duration_text(Some((60 * whole + part) as u64))
            == text::decimal(whole) + "m "@ + text::decimal(part) + "s"@,
        rest < 60 ==> duration_text(Some(rest as u64)) == text::decimal(rest) + "s"@,
{
    if whole > 0 && part < 24 && rest < 3600 {
        let s = 86400 * whole + 3600 * part + rest;
        assert(s / 86400 == whole && (s % 86400) / 3600 == part) by (nonlinear_arith)
            requires
                s == 86400 * whole + 3600 * part + rest,
                part < 24,
                rest < 3600,
        ;
    }
    if 0 < whole < 24 && part < 60 && rest < 60 {
        let s = 3600 * whole + 60 * part + rest;
        assert(s < 86400);
        assert(s / 3600 == whole && (s % 3600) / 60 == part) by (nonlinear_arith)
            requires
                s == 3600 * whole + 60 * part + rest,
                part < 60,
                rest < 60,
        ;
    }
}

/// Rounding gives the nearest integer: it is off by half a unit at most, and where
/// it is off by just that, it is even.
pub proof fn rounding_is_to_the_nearest(a: nat, b: nat)
    requires
        b > 0,
    ensures
        2 * (number::rounded(a, b) * b - a) <= b,
        2 * (a - number::rounded(a, b) * b) <= b,
        2 * (number::rounded(a, b) * b - a) == b || 2 * (a - number::rounded(a, b) * b) == b
            ==> number::rounded(a, b) % 2 == 0,
{
    let q = a / b;
    let r = a % b;
    vstd::arithmetic::div_mod::lemma_fundamental_div_mod(a as int, b as int);
    assert(a == b * q + r);
    assert((q + 1) * b == b * q + b) by (nonlinear_arith);
    assert(q * b == b * q) by (nonlinear_arith);
}

/// An integer below 2^53 is held as it is.
pub proof fn small_integers_are_exact(n: nat)
    requires
        n < 0x20_0000_0000_0000,
    ensures
        number::nearest_double(n) == n,
{
    assert(number::spacing(n) == 1);
    assert(n / 1 == n && n % 1 == 0);
}

/// A size is read with one decimal, off by a twentieth of its unit at most; below a
/// kilobyte it is exact. Sizes from 2^53 bytes on are left out.
pub proof fn sizes_are_read_to_a_tenth(bytes: u64) -> (tenths: nat)
    requires
        bytes < 0x20_0000_0000_0000,
    ensures
        bytes < 1024 ==> size_text(bytes) == text::decimal(bytes as nat) + " B"@,
        1024 <= bytes < 1048576 ==> size_text(bytes) == text::decimal(tenths / 10) + "."@
            + text::decimal(tenths % 10) + " KB"@ && -512 <= 1024 * tenths - 10 * bytes <= 512,
        bytes >= 1048576 ==> size_text(bytes) == text::decimal(tenths / 10) + "."@ + text::decimal(
            tenths % 10,
        ) + " MB"@ && -524288 <= 1048576 * tenths - 10 * bytes <= 524288,
{
    small_integers_are_exact(bytes as nat);
    let n = (10 * bytes) as nat;
    assert((bytes * 10) as nat == n);
    if bytes < 1048576 {
        rounding_is_to_the_nearest(n, 1024);
        number::rounded(n, 1024)
    } else {
        rounding_is_to_the_nearest(n, 1048576);
        number::rounded(n, 1048576)
    }
}

// ── The page ────────────────────────────────────────────────────────────────

/// Whether a text stands somewhere in another.
pub open spec fn holds_text(s: Seq<char>, p: Seq<char>) -> bool {
    exists|a: Seq<char>, b: Seq<char>| s == #[trigger] (a + p + b)
}

proof fn holds_within(s: Seq<char>, before: Seq<char>, t: Seq<char>, after: Seq<char>, p: Seq<char>)
    requires
        s == before + t + after,
        holds_text(t, p),
    ensures
        holds_text(s, p),
{
    let (a, b) = choose|a: Seq<char>, b: Seq<char>| t == #[trigger] (a + p + b);
    assert(s =~= (before + a) + p + (b + after));
}

/// Filling in keeps the texts in their order: each stands between its two parts.
pub proof fn filling_keeps_the_order(parts: Seq<Seq<char>>, args: Seq<Seq<char>>, k: int)
    requires
        parts.len() == args.len() + 1,
        0 <= k < args.len(),
    ensures
        holds_text(text::filled(parts, args), args[k]),
        holds_text(text::filled(parts, args), parts[k] + args[k] + parts[k + 1]),
        k + 1 < args.len() ==> holds_text(
            text::filled(parts, args),
            args[k] + parts[k + 1] + args[k + 1],
        ),
    decreases args.len(),
{
    let s = text::filled(parts, args);
    let ps = parts.drop_last();
    let xs = args.drop_last();
    let t = text::filled(ps, xs);
    let none = Seq::<char>::empty();
    let n = args.len() - 1;
    assert(s =~= t + args.last() + parts.last());
    ends_in_its_part(ps, xs);
    let head = choose|head: Seq<char>| t == #[trigger] (head + ps.last());
    if k == n {
        assert(s =~= t + args[k] + parts[k + 1]);
        assert(s =~= head + (parts[k] + args[k] + parts[k + 1]) + none);
    } else {
        filling_keeps_the_order(ps, xs, k);
        assert(s =~= none + t + (args.last() + parts.last()));
        holds_within(s, none, t, args.last() + parts.last(), args[k]);
        holds_within(
            s,
            none,
            t,
            args.last() + parts.last(),
            parts[k] + args[k] + parts[k + 1],
        );
        if k + 1 < n {
            holds_within(
                s,
                none,
                t,
                args.last() + parts.last(),
                args[k] + parts[k + 1] + args[k + 1],
            );
        } else {
            let u = text::filled(ps.drop_last(), xs.drop_last());
            assert(t =~= u + xs.last() + ps.last());
            assert(s =~= u + (args[k] + parts[k + 1] + args[k + 1]) + parts.last());
        }
    }
}

proof fn ends_in_its_part(parts: Seq<Seq<char>>, args: Seq<Seq<char>>)
    requires
        parts.len() == args.len() + 1,
    ensures
        exists|head: Seq<char>| text::filled(parts, args) == #[trigger] (head + parts.last()),
{
    if args.len() == 0 {
        assert(text::filled(parts, args) =~= Seq::<char>::empty() + parts.last());
    } else {
        let head = text::filled(parts.drop_last(), args.drop_last()) + args.last();
        assert(text::filled(parts, args) == head + parts.last());
    }
}

/// A stream's row shows its identifier, then when its first and its last batch
/// came, how long lies between them, how many batches there are and how large
/// they are, and whether it is live.
pub proof fn rows_show_their_stream(
    s: StreamDisplay,
    gi: nat,
    si: nat,
    pi: nat,
    player: Seq<char>,
    server: Seq<char>,
    game: Seq<char>,
)
    ensures
        ({
            let row = stream_row(s, gi, si, pi, player, server, game);
            let p = STREAM_ROW@;
            &&& holds_text(row, s.stream_id@ + p[6]@ + time_text(s.first_ts))
            &&& holds_text(row, time_text(s.first_ts) + p[7]@ + time_text(s.last_ts))
            &&& holds_text(row, time_text(s.last_ts) + p[8]@ + duration_text(span_of(s)))
            &&& holds_text(
                row,
                duration_text(span_of(s)) + p[9]@ + text::decimal(s.batches as nat),
            )
            &&& holds_text(row, text::decimal(s.batches as nat) + p[10]@ + size_text(s.file_bytes))
            &&& s.connected ==> holds_text(row, "<span class=\"live\">&#9679; Live</span>"@)
            &&& !s.connected ==> holds_text(
                row,
                "<span class=\"offline\">&#9679; Offline</span>"@,
            )
            &&& s.public_stream ==> holds_text(
                row,
                "<span class=\"pub-yes\">&#10003; Yes</span>"@,
            )
            &&& !s.public_stream ==> holds_text(row, "<span class=\"pub-no\">&#8212;</span>"@)
            &&& holds_text(
                row,
                escaped("/stream/"@ + s.stream_id@ + "?vtok="@ + s.view_token@),
            )
            &&& holds_text(
                row,
                p[1]@ + text::decimal(gi) + p[2]@,
            )
            &&& holds_text(row, p[2]@ + text::decimal(si) + p[3]@)
            &&& holds_text(row, p[3]@ + text::decimal(pi) + p[4]@)
        }),
{
    let parts = text::strs(STREAM_ROW@);
    let args = seq![
        if s.connected {
            "live-row"@
        } else {
            ""@
        },
        text::decimal(gi),
        text::decimal(si),
        text::decimal(pi),
        escaped(search_text(s, player, server, game)),
        s.stream_id@,
        time_text(s.first_ts),
        time_text(s.last_ts),
        duration_text(span_of(s)),
        text::decimal(s.batches as nat),
        size_text(s.file_bytes),
        if s.connected {
            "<span class=\"live\">&#9679; Live</span>"@
        } else {
            "<span class=\"offline\">&#9679; Offline</span>"@
        },
        if s.public_stream {
            "<span class=\"pub-yes\">&#10003; Yes</span>"@
        } else {
            "<span class=\"pub-no\">&#8212;</span>"@
        },
        escaped(access::view_path_of(s.stream_id@, s.view_token@)),
    ];
    assert(STREAM_ROW@.len() == 15);
    filling_keeps_the_order(parts, args, 1);
    filling_keeps_the_order(parts, args, 2);
    filling_keeps_the_order(parts, args, 3);
    filling_keeps_the_order(parts, args, 5);
    filling_keeps_the_order(parts, args, 6);
    filling_keeps_the_order(parts, args, 7);
    filling_keeps_the_order(parts, args, 8);
    filling_keeps_the_order(parts, args, 9);
    filling_keeps_the_order(parts, args, 11);
    filling_keeps_the_order(parts, args, 12);
    filling_keeps_the_order(parts, args, 13);
}

proof fn streams_have_rows(
    p: PlayerGroup,
    gi: nat,
    si: nat,
    pi: nat,
    server: Seq<char>,
    game: Seq<char>,
    n: nat,
    k: int,
)
    requires
        0 <= k < n <= p.streams@.len(),
    ensures
        holds_text(
            stream_rows(p, gi, si, pi, server, game, n),
            stream_row(p.streams@[k], gi, si, pi, p.label@, server, game),
        ),
    decreases n,
{
    let s = stream_rows(p, gi, si, pi, server, game, n);
    let t = stream_rows(p, gi, si, pi, server, game, (n - 1) as nat);
    let last = stream_row(p.streams@[n - 1], gi, si, pi, p.label@, server, game);
    let none = Seq::<char>::empty();
    if k == n - 1 {
        assert(s =~= t + last + none);
    } else {
        streams_have_rows(p, gi, si, pi, server, game, (n - 1) as nat, k);
        assert(s =~= none + t + last);
        holds_within(
            s,
            none,
            t,
            last,
            stream_row(p.streams@[k], gi, si, pi, p.label@, server, game),
        );
    }
}

proof fn players_have_rows(
    s: ServerGroup,
    gi: nat,
    si: nat,
    game: Seq<char>,
    n: nat,
    i: int,
    row: Seq<char>,
)
    requires
        0 <= i < n <= s.players@.len(),
        holds_text(
            stream_rows(
                s.players@[i],
                gi,
                si,
                i as nat,
                s.label@,
                game,
                s.players@[i].streams@.len(),
            ),
            row,
        ),
    ensures
        holds_text(player_rows(s, gi, si, game, n), row),
    decreases n,
{
    let all = player_rows(s, gi, si, game, n);
    let t = player_rows(s, gi, si, game, (n - 1) as nat);
    let p = s.players@[n - 1];
    let head = player_row(p, gi, si, (n - 1) as nat);
    let rows = stream_rows(p, gi, si, (n - 1) as nat, s.label@, game, p.streams@.len());
    let none = Seq::<char>::empty();
    assert(all =~= t + head + rows);
    if i == n - 1 {
        assert(all =~= (t + head) + rows + none);
        holds_within(all, t + head, rows, none, row);
    } else {
        players_have_rows(s, gi, si, game, (n - 1) as nat, i, row);
        assert(all =~= none + t + (head + rows));
        holds_within(all, none, t, head + rows, row);
    }
}

proof fn servers_have_rows(g: GameGroup, gi: nat, n: nat, i: int, row: Seq<char>)
    requires
        0 <= i < n <= g.servers@.len(),
        holds_text(
            player_rows(g.servers@[i], gi, i as nat, g.label@, g.servers@[i].players@.len()),
            row,
        ),
    ensures
        holds_text(server_rows(g, gi, n), row),
    decreases n,
{
    let all = server_rows(g, gi, n);
    let t = server_rows(g, gi, (n - 1) as nat);
    let s = g.servers@[n - 1];
    let head = server_row(s, gi, (n - 1) as nat);
    let rows = player_rows(s, gi, (n - 1) as nat, g.label@, s.players@.len());
    let none = Seq::<char>::empty();
    assert(all =~= t + head + rows);
    if i == n - 1 {
        assert(all =~= (t + head) + rows + none);
        holds_within(all, t + head, rows, none, row);
    } else {
        servers_have_rows(g, gi, (n - 1) as nat, i, row);
        assert(all =~= none + t + (head + rows));
        holds_within(all, none, t, head + rows, row);
    }
}

proof fn games_have_rows(games: Seq<GameGroup>, n: nat, i: int, row: Seq<char>)
    requires
        0 <= i < n <= games.len(),
        holds_text(server_rows(games[i], i as nat, games[i].servers@.len()), row),
    ensures
        holds_text(game_rows(games, n), row),
    decreases n,
{
    let all = game_rows(games, n);
    let t = game_rows(games, (n - 1) as nat);
    let g = games[n - 1];
    let head = game_row(g, (n - 1) as nat);
    let rows = server_rows(g, (n - 1) as nat, g.servers@.len());
    let none = Seq::<char>::empty();
    assert(all =~= t + head + rows);
    if i == n - 1 {
        assert(all =~= (t + head) + rows + none);
        holds_within(all, t + head, rows, none, row);
    } else {
        games_have_rows(games, (n - 1) as nat, i, row);
        assert(all =~= none + t + (head + rows));
        holds_within(all, none, t, head + rows, row);
    }
}

/// The table has a row for every stream of every player on every server of every
/// game, which names the places of the groups that it belongs to.
pub proof fn every_stream_has_its_row(games: Seq<GameGroup>, g: int, s: int, p: int, k: int)
    requires
        0 <= g < games.len(),
        0 <= s < games[g].servers@.len(),
        0 <= p < games[g].servers@[s].players@.len(),
        0 <= k < games[g].servers@[s].players@[p].streams@.len(),
    ensures
        holds_text(
            game_rows(games, games.len()),
            stream_row(
                games[g].servers@[s].players@[p].streams@[k],
                g as nat,
                s as nat,
                p as nat,
                games[g].servers@[s].players@[p].label@,
                games[g].servers@[s].label@,
                games[g].label@,
            ),
        ),
{
    let game = games[g];
    let server = game.servers@[s];
    let player = server.players@[p];
    let row = stream_row(
        player.streams@[k],
        g as nat,
        s as nat,
        p as nat,
        player.label@,
        server.label@,
        game.label@,
    );
    streams_have_rows(
        player,
        g as nat,
        s as nat,
        p as nat,
        server.label@,
        game.label@,
        player.streams@.len(),
        k,
    );
    players_have_rows(server, g as nat, s as nat, game.label@, server.players@.len(), p, row);
    servers_have_rows(game, g as nat, game.servers@.len(), s, row);
    games_have_rows(games, games.len(), g, row);
}

/// The groups are labelled by what they are groups of: a player by their name, a
/// server by its own, and a game by the name that it is shown under.
pub proof fn groups_have_their_own_labels(
    rows: Seq<FlatStream>,
    p: PlayerGroup,
    s: ServerGroup,
    g: GameGroup,
)
    requires
        rows.len() > 0,
    ensures
        is_player(rows, p) ==> p.label@ == rows[0].player@,
        is_server(rows, s) ==> s.label@ == rows[0].server@,
        is_game(rows, g) && rows[0].game@ != "eql"@ ==> g.label@ == rows[0].game@,
        is_game(rows, g) && rows[0].game@ == "eql"@ ==> g.label@ == "Everquest Legends"@,
{
}

/// A stream is found by its identifier, its player, its server and its game,
/// without regard to case, and by whether it is live and public.
pub proof fn streams_are_found_by_their_names(
    s: StreamDisplay,
    player: Seq<char>,
    server: Seq<char>,
    game: Seq<char>,
)
    ensures
        ({
            let t = search_text(s, player, server, game);
            &&& text::lowercase(s.stream_id@).is_prefix_of(t)
            &&& holds_text(t, text::lowercase(player))
            &&& holds_text(t, text::lowercase(server))
            &&& holds_text(t, text::lowercase(game))
            &&& s.connected ==> holds_text(t, " live "@)
            &&& !s.connected ==> holds_text(t, " offline "@)
            &&& s.public_stream ==> holds_text(t, " public"@)
            &&& !s.public_stream ==> holds_text(t, " private"@)
        }),
{
    reveal_strlit(" ");
    reveal_strlit("live");
    reveal_strlit(" live ");
    reveal_strlit("offline");
    reveal_strlit(" offline ");
    reveal_strlit("public");
    reveal_strlit(" public");
    reveal_strlit("private");
    reveal_strlit(" private");
    let t = search_text(s, player, server, game);
    let sp = " "@;
    let none = Seq::<char>::empty();
    let a = text::lowercase(s.stream_id@);
    let b = text::lowercase(player);
    let c = text::lowercase(server);
    let d = text::lowercase(game);
    let e = if s.connected {
        "live"@
    } else {
        "offline"@
    };
    let f = if s.public_stream {
        "public"@
    } else {
        "private"@
    };
    assert(t =~= a + sp + b + sp + c + sp + d + sp + e + sp + f);
    assert(t.subrange(0, a.len() as int) =~= a);
    assert(t =~= (a + sp) + b + (sp + c + sp + d + sp + e + sp + f));
    assert(t =~= (a + sp + b + sp) + c + (sp + d + sp + e + sp + f));
    assert(t =~= (a + sp + b + sp + c + sp) + d + (sp + e + sp + f));
    let live = sp + e + sp;
    assert(t =~= (a + sp + b + sp + c + sp + d) + live + f);
    if s.connected {
        assert(live =~= " live "@);
    } else {
        assert(live =~= " offline "@);
    }
    let shown = sp + f;
    assert(t =~= (a + sp + b + sp + c + sp + d + sp + e) + shown + none);
    if s.public_stream {
        assert(shown =~= " public"@);
    } else {
        assert(shown =~= " private"@);
    }
}

} // verus!
