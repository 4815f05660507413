//! The admin panel: every stream, grouped by game, server and player, the most
//! recently active first.
use vstd::prelude::*;

use crate::maps;
use crate::maps::Ranked;
use crate::server::access;
use crate::server::admin_page;
use crate::number;
use crate::text;

verus! {

// ── What the panel shows ────────────────────────────────────────────────────

/// One stream's row.
pub struct StreamDisplay {
    pub stream_id: String,
    pub view_token: String,
    pub connected: bool,
    pub public_stream: bool,
    /// Log time of the first and of the last batch.
    pub first_ts: Option<u64>,
    pub last_ts: Option<u64>,
    pub batches: usize,
    pub file_bytes: u64,
}

/// A stream, with the game, the server and the player that it belongs to.
pub struct FlatStream {
    pub game: String,
    pub server: String,
    pub player: String,
    pub display: StreamDisplay,
}

/// The streams of one player.
pub struct PlayerGroup {
    pub label: String,
    pub streams: Vec<StreamDisplay>,
}

/// The players of one server.
pub struct ServerGroup {
    pub label: String,
    pub players: Vec<PlayerGroup>,
}

/// The servers of one game.
pub struct GameGroup {
    pub label: String,
    pub servers: Vec<ServerGroup>,
}

/// Times in order, a missing one before all others.
pub open spec fn ts_rank(ts: Option<u64>) -> nat {
    match ts {
        Some(t) => (t + 1) as nat,
        None => 0,
    }
}

fn rank_of_ts(ts: Option<u64>) -> (r: u128)
    ensures
        r == ts_rank(ts),
{
    match ts {
        Some(t) => t as u128 + 1,
        None => 0,
    }
}

/// The highest rank in a list, or zero where it is empty.
pub open spec fn top_rank<T: Ranked>(s: Seq<T>) -> nat
    decreases s.len(),
{
    if s.len() == 0 {
        0
    } else {
        let before = top_rank(s.drop_last());
        if s.last().rank() > before {
            s.last().rank()
        } else {
            before
        }
    }
}

fn top_rank_of<T: Ranked>(v: &Vec<T>) -> (r: u128)
    ensures
        r == top_rank(v@),
{
    let mut top: u128 = 0;
    let mut i: usize = 0;
    while i < v.len()
        invariant
            i <= v@.len(),
            top == top_rank(v@.take(i as int)),
        decreases v@.len() - i,
    {
        let k: u128 = v[i].rank_of();
        proof {
            assert(v@.take(i + 1).drop_last() =~= v@.take(i as int));
            assert(v@.take(i + 1).last() == v@[i as int]);
        }
        if k > top {
            top = k;
        }
        i += 1;
    }
    proof {
        assert(v@.take(i as int) =~= v@);
    }
    top
}

impl Ranked for StreamDisplay {
    open spec fn rank(&self) -> nat {
        ts_rank(self.last_ts)
    }

    fn rank_of(&self) -> (r: u128) {
        rank_of_ts(self.last_ts)
    }
}

impl Ranked for PlayerGroup {
    open spec fn rank(&self) -> nat {
        top_rank(self.streams@)
    }

    fn rank_of(&self) -> (r: u128) {
        top_rank_of(&self.streams)
    }
}

impl Ranked for ServerGroup {
    open spec fn rank(&self) -> nat {
        top_rank(self.players@)
    }

    fn rank_of(&self) -> (r: u128) {
        top_rank_of(&self.players)
    }
}

impl Ranked for GameGroup {
    open spec fn rank(&self) -> nat {
        top_rank(self.servers@)
    }

    fn rank_of(&self) -> (r: u128) {
        top_rank_of(&self.servers)
    }
}

// ── Grouping ────────────────────────────────────────────────────────────────

/// The name under which a game is shown.
pub open spec fn game_name(id: Seq<char>) -> Seq<char> {
    if id == "eql"@ {
        "Everquest Legends"@
    } else {
        id
    }
}

/// The name under which a game is shown.
pub fn game_display_name(id: &str) -> (r: String)
    ensures
        r@ == game_name(id@),
{
    if text::same(id, "eql") {
        "Everquest Legends".to_owned()
    } else {
        id.to_owned()
    }
}

/// By what the streams are told apart, from the outermost grouping in.
#[derive(Clone, Copy, PartialEq, Eq, Structural)]
pub enum Level {
    Game,
    Server,
    Player,
}

/// The name that a stream is shown under at a level.
pub open spec fn label_at(s: FlatStream, level: Level) -> Seq<char> {
    match level {
        Level::Game => game_name(s.game@),
        Level::Server => s.server@,
        Level::Player => s.player@,
    }
}

/// The name that a stream is grouped by at a level, without regard to case.
pub open spec fn key_at(s: FlatStream, level: Level) -> Seq<char> {
    text::lowercase(label_at(s, level))
}

fn label_of(s: &FlatStream, level: Level) -> (r: String)
    ensures
        r@ == label_at(*s, level),
{
    match level {
        Level::Game => game_display_name(s.game.as_str()),
        Level::Server => s.server.clone(),
        Level::Player => s.player.clone(),
    }
}

fn key_of(s: &FlatStream, level: Level) -> (r: String)
    ensures
        r@ == key_at(*s, level),
{
    text::to_lowercase(label_of(s, level).as_str())
}

/// The group of `s` with the key `key`: its position, or the number of groups.
pub open spec fn group_index(groups: Seq<Seq<FlatStream>>, level: Level, key: Seq<char>) -> nat
    decreases groups.len(),
{
    if groups.len() == 0 {
        0
    } else if key_at(groups.first()[0], level) == key {
        0
    } else {
        1 + group_index(groups.drop_first(), level, key)
    }
}

/// The streams in groups of one key each, in the order in which the keys first
/// come; each group in the order of the list.
pub open spec fn groups_of(s: Seq<FlatStream>, level: Level) -> Seq<Seq<FlatStream>>
    decreases s.len(),
{
    if s.len() == 0 {
        Seq::empty()
    } else {
        let before = groups_of(s.drop_last(), level);
        let at = group_index(before, level, key_at(s.last(), level)) as int;
        if at < before.len() {
            before.update(at, before[at].push(s.last()))
        } else {
            before.push(seq![s.last()])
        }
    }
}

/// The streams of each group.
pub open spec fn members(v: Seq<Vec<FlatStream>>) -> Seq<Seq<FlatStream>> {
    v.map_values(|g: Vec<FlatStream>| g@)
}

/// The position of a group is at most the number of groups; the group there
/// has the key.
proof fn group_index_bound(groups: Seq<Seq<FlatStream>>, level: Level, key: Seq<char>)
    ensures
        group_index(groups, level, key) <= groups.len(),
        group_index(groups, level, key) < groups.len() ==> key_at(
            groups[group_index(groups, level, key) as int][0],
            level,
        ) == key,
    decreases groups.len(),
{
    if groups.len() > 0 && key_at(groups.first()[0], level) != key {
        group_index_bound(groups.drop_first(), level, key);
    }
}

/// No group is empty, and together the groups hold as many streams as the list.
proof fn groups_hold_all(s: Seq<FlatStream>, level: Level)
    ensures
        forall|i: int|
            0 <= i < groups_of(s, level).len() ==> (#[trigger] groups_of(s, level)[i]).len() > 0,
        sum(groups_of(s, level), |g: Seq<FlatStream>| g.len()) == s.len(),
    decreases s.len(),
{
    let f = |g: Seq<FlatStream>| g.len();
    if s.len() > 0 {
        groups_hold_all(s.drop_last(), level);
        let before = groups_of(s.drop_last(), level);
        let key = key_at(s.last(), level);
        let at = group_index(before, level, key) as int;
        group_index_bound(before, level, key);
        if at < before.len() {
            sum_update(before, at, before[at].push(s.last()), f);
        } else {
            sum_push(before, seq![s.last()], f);
        }
    }
}

/// The streams in groups of one key each.
fn group_rows(rows: Vec<FlatStream>, level: Level) -> (r: Vec<Vec<FlatStream>>)
    ensures
        members(r@) == groups_of(rows@, level),
{
    let mut groups: Vec<Vec<FlatStream>> = Vec::new();
    let ghost all = rows@;
    proof {
        assert(all.take(0) =~= Seq::<FlatStream>::empty());
        assert(members(groups@) =~= groups_of(all.take(0), level));
    }
    for row in it: rows
        invariant
            it.seq() == all,
            members(groups@) == groups_of(all.take(it.index() as int), level),
    {
        let ghost k = it.index() as int;
        let ghost before = members(groups@);
        let key = key_of(&row, level);
        proof {
            assert(row == all[k]);
            assert(all.take(k + 1).drop_last() =~= all.take(k));
            assert(all.take(k + 1).last() == row);
            groups_hold_all(all.take(k), level);
            assert(before.skip(0) =~= before);
        }
        let n: usize = groups.len();
        let mut at: usize = 0;
        let mut found: bool = false;
        while at < n && !found
            invariant
                n == groups@.len(),
                before == members(groups@),
                forall|i: int| 0 <= i < before.len() ==> (#[trigger] before[i]).len() > 0,
                at <= n,
                found ==> at < n,
                found ==> group_index(before, level, key@) == at,
                !found ==> at + group_index(before.skip(at as int), level, key@) == group_index(
                    before,
                    level,
                    key@,
                ),
            decreases n - at, (if found { 0int } else { 1int }),
        {
            proof {
                assert(before[at as int] == groups@[at as int]@);
                assert(before.skip(at as int).first() == before[at as int]);
                assert(before.skip(at as int).drop_first() =~= before.skip(at + 1));
            }
            if key_of(&groups[at][0], level) == key {
                found = true;
            } else {
                at += 1;
            }
        }
        if found {
            groups[at].push(row);
            proof {
                assert(members(groups@) =~= before.update(at as int, before[at as int].push(row)));
            }
        } else {
            proof {
                assert(before.skip(n as int) =~= Seq::<Seq<FlatStream>>::empty());
            }
            let mut fresh: Vec<FlatStream> = Vec::new();
            fresh.push(row);
            proof {
                assert(fresh@ =~= seq![row]);
            }
            groups.push(fresh);
            proof {
                assert(members(groups@) =~= before.push(seq![row]));
            }
        }
    }
    proof {
        assert(all.take(all.len() as int) =~= all);
    }
    groups
}

/// Whether `p` shows the streams `rows`, which belong to one player: the most
/// recently active first.
pub open spec fn is_player(rows: Seq<FlatStream>, p: PlayerGroup) -> bool {
    &&& p.label@ == label_at(rows[0], Level::Player)
    &&& p.streams@ == maps::ranked_down(rows.map_values(|r: FlatStream| r.display))
}

/// Whether `s` shows the streams `rows`, which belong to one server, by player:
/// the players of the most recent activity first.
pub open spec fn is_server(rows: Seq<FlatStream>, s: ServerGroup) -> bool {
    let groups = groups_of(rows, Level::Player);
    &&& s.label@ == label_at(rows[0], Level::Server)
    &&& exists|players: Seq<PlayerGroup>|
        {
            &&& s.players@ == #[trigger] maps::ranked_down(players)
            &&& players.len() == groups.len()
            &&& forall|i: int|
                0 <= i < players.len() ==> is_player(groups[i], #[trigger] players[i])
        }
}

/// Whether `g` shows the streams `rows`, which belong to one game, by server.
pub open spec fn is_game(rows: Seq<FlatStream>, g: GameGroup) -> bool {
    let groups = groups_of(rows, Level::Server);
    &&& g.label@ == label_at(rows[0], Level::Game)
    &&& exists|servers: Seq<ServerGroup>|
        {
            &&& g.servers@ == #[trigger] maps::ranked_down(servers)
            &&& servers.len() == groups.len()
            &&& forall|i: int|
                0 <= i < servers.len() ==> is_server(groups[i], #[trigger] servers[i])
        }
}

/// Whether `games` shows the streams `rows`, by game.
pub open spec fn is_panel(rows: Seq<FlatStream>, games: Seq<GameGroup>) -> bool {
    let groups = groups_of(rows, Level::Game);
    exists|unsorted: Seq<GameGroup>|
        {
            &&& games == #[trigger] maps::ranked_down(unsorted)
            &&& unsorted.len() == groups.len()
            &&& forall|i: int|
                0 <= i < unsorted.len() ==> is_game(groups[i], #[trigger] unsorted[i])
        }
}

fn player_group(rows: Vec<FlatStream>) -> (r: PlayerGroup)
    requires
        rows@.len() > 0,
    ensures
        is_player(rows@, r),
{
    let label = label_of(&rows[0], Level::Player);
    let ghost all = rows@;
    let ghost shown = all.map_values(|r: FlatStream| r.display);
    let mut streams: Vec<StreamDisplay> = Vec::new();
    for row in it: rows
        invariant
            it.seq() == all,
            shown == all.map_values(|r: FlatStream| r.display),
            streams@ == shown.take(it.index() as int),
    {
        let ghost k = it.index() as int;
        let FlatStream { display, .. } = row;
        streams.push(display);
        proof {
            assert(shown.take(k + 1) =~= shown.take(k).push(shown[k]));
        }
    }
    proof {
        assert(shown.take(all.len() as int) =~= shown);
    }
    PlayerGroup { label, streams: maps::sort_down(streams) }
}

fn server_group(rows: Vec<FlatStream>) -> (r: ServerGroup)
    requires
        rows@.len() > 0,
    ensures
        is_server(rows@, r),
{
    let label = label_of(&rows[0], Level::Server);
    let ghost groups = groups_of(rows@, Level::Player);
    proof {
        groups_hold_all(rows@, Level::Player);
    }
    let parts = group_rows(rows, Level::Player);
    let ghost all = parts@;
    let mut players: Vec<PlayerGroup> = Vec::new();
    for part in it: parts
        invariant
            it.seq() == all,
            members(all) == groups,
            forall|i: int| 0 <= i < groups.len() ==> (#[trigger] groups[i]).len() > 0,
            players@.len() == it.index(),
            forall|i: int|
                0 <= i < players@.len() ==> is_player(groups[i], #[trigger] players@[i]),
    {
        proof {
            assert(members(all)[it.index() as int] == part@);
        }
        players.push(player_group(part));
    }
    let ghost unsorted = players@;
    let players = maps::sort_down(players);
    proof {
        assert(players@ == maps::ranked_down(unsorted));
    }
    ServerGroup { label, players }
}

fn game_group(rows: Vec<FlatStream>) -> (r: GameGroup)
    requires
        rows@.len() > 0,
    ensures
        is_game(rows@, r),
{
    let label = label_of(&rows[0], Level::Game);
    let ghost groups = groups_of(rows@, Level::Server);
    proof {
        groups_hold_all(rows@, Level::Server);
    }
    let parts = group_rows(rows, Level::Server);
    let ghost all = parts@;
    let mut servers: Vec<ServerGroup> = Vec::new();
    for part in it: parts
        invariant
            it.seq() == all,
            members(all) == groups,
            forall|i: int| 0 <= i < groups.len() ==> (#[trigger] groups[i]).len() > 0,
            servers@.len() == it.index(),
            forall|i: int|
                0 <= i < servers@.len() ==> is_server(groups[i], #[trigger] servers@[i]),
    {
        proof {
            assert(members(all)[it.index() as int] == part@);
        }
        servers.push(server_group(part));
    }
    let ghost unsorted = servers@;
    let servers = maps::sort_down(servers);
    proof {
        assert(servers@ == maps::ranked_down(unsorted));
    }
    GameGroup { label, servers }
}

/// The streams, grouped by game, server and player without regard to case; each
/// group under the name that came first; the most recently active first at
/// every level.
pub fn group_streams(rows: Vec<FlatStream>) -> (r: Vec<GameGroup>)
    ensures
        is_panel(rows@, r@),
{
    let ghost groups = groups_of(rows@, Level::Game);
    proof {
        groups_hold_all(rows@, Level::Game);
    }
    let parts = group_rows(rows, Level::Game);
    let ghost all = parts@;
    let mut games: Vec<GameGroup> = Vec::new();
    for part in it: parts
        invariant
            it.seq() == all,
            members(all) == groups,
            forall|i: int| 0 <= i < groups.len() ==> (#[trigger] groups[i]).len() > 0,
            games@.len() == it.index(),
            forall|i: int| 0 <= i < games@.len() ==> is_game(groups[i], #[trigger] games@[i]),
    {
        proof {
            assert(members(all)[it.index() as int] == part@);
        }
        games.push(game_group(part));
    }
    let ghost unsorted = games@;
    let games = maps::sort_down(games);
    proof {
        assert(games@ == maps::ranked_down(unsorted));
    }
    games
}

// ── Counting ────────────────────────────────────────────────────────────────

/// The numbers that `f` gives for the elements of `s`, added up.
pub open spec fn sum<T>(s: Seq<T>, f: spec_fn(T) -> nat) -> nat
    decreases s.len(),
{
    if s.len() == 0 {
        0
    } else {
        sum(s.drop_last(), f) + f(s.last())
    }
}

proof fn sum_push<T>(s: Seq<T>, x: T, f: spec_fn(T) -> nat)
    ensures
        sum(s.push(x), f) == sum(s, f) + f(x),
{
    assert(s.push(x).drop_last() =~= s);
}

proof fn sum_update<T>(s: Seq<T>, i: int, x: T, f: spec_fn(T) -> nat)
    requires
        0 <= i < s.len(),
    ensures
        sum(s.update(i, x), f) + f(s[i]) == sum(s, f) + f(x),
    decreases s.len(),
{
    let t = s.drop_last();
    if i == s.len() - 1 {
        assert(s.update(i, x).drop_last() =~= t);
    } else {
        sum_update(t, i, x, f);
        assert(s.update(i, x).drop_last() =~= t.update(i, x));
    }
}

proof fn sum_insert<T>(s: Seq<T>, i: int, x: T, f: spec_fn(T) -> nat)
    requires
        0 <= i <= s.len(),
    ensures
        sum(s.insert(i, x), f) == sum(s, f) + f(x),
    decreases s.len(),
{
    if i == s.len() {
        assert(s.insert(i, x) =~= s.push(x));
        sum_push(s, x, f);
    } else {
        let t = s.drop_last();
        sum_insert(t, i, x, f);
        assert(s.insert(i, x).drop_last() =~= t.insert(i, x));
        assert(s.insert(i, x).last() == s.last());
    }
}

/// Sorting does not change a sum.
proof fn sum_ranked<T: Ranked>(s: Seq<T>, f: spec_fn(T) -> nat)
    ensures
        sum(maps::ranked_down(s), f) == sum(s, f),
    decreases s.len(),
{
    if s.len() > 0 {
        sum_ranked(s.drop_last(), f);
        let t = maps::ranked_down(s.drop_last());
        maps::place_within(t, s.last().rank());
        sum_insert(t, maps::place_of(t, s.last().rank()) as int, s.last(), f);
    }
}

/// Sums of equal numbers are equal.
proof fn sum_same<T, U>(s: Seq<T>, f: spec_fn(T) -> nat, u: Seq<U>, g: spec_fn(U) -> nat)
    requires
        s.len() == u.len(),
        forall|i: int| 0 <= i < s.len() ==> f(#[trigger] s[i]) == g(u[i]),
    ensures
        sum(s, f) == sum(u, g),
    decreases s.len(),
{
    if s.len() > 0 {
        let t = s.drop_last();
        let v = u.drop_last();
        assert forall|i: int| 0 <= i < t.len() implies f(#[trigger] t[i]) == g(v[i]) by {
            assert(t[i] == s[i]);
        }
        sum_same(t, f, v, g);
        assert(f(s[s.len() - 1]) == g(u[u.len() - 1]));
    }
}

/// How many streams a player has.
pub open spec fn player_streams(p: PlayerGroup) -> nat {
    p.streams@.len()
}

/// How many streams a server's players have.
pub open spec fn server_streams(s: ServerGroup) -> nat {
    sum(s.players@, |p: PlayerGroup| player_streams(p))
}

/// How many streams a game's players have.
pub open spec fn game_streams(g: GameGroup) -> nat {
    sum(g.servers@, |s: ServerGroup| server_streams(s))
}

/// How many players a game has, on all its servers.
pub open spec fn game_players(g: GameGroup) -> nat {
    sum(g.servers@, |s: ServerGroup| s.players@.len())
}

/// How many streams there are.
pub open spec fn total_streams(games: Seq<GameGroup>) -> nat {
    sum(games, |g: GameGroup| game_streams(g))
}

/// How many players there are, on all servers of all games.
pub open spec fn total_players(games: Seq<GameGroup>) -> nat {
    sum(games, |g: GameGroup| game_players(g))
}

proof fn ranked_len<T: Ranked>(s: Seq<T>)
    ensures
        maps::ranked_down(s).len() == s.len(),
{
    maps::ranked_down_sorts(s);
}

proof fn server_counts(rows: Seq<FlatStream>, s: ServerGroup)
    requires
        is_server(rows, s),
    ensures
        server_streams(s) == rows.len(),
        s.players@.len() <= rows.len(),
{
    let groups = groups_of(rows, Level::Player);
    let players = choose|players: Seq<PlayerGroup>|
        {
            &&& s.players@ == #[trigger] maps::ranked_down(players)
            &&& players.len() == groups.len()
            &&& forall|i: int|
                0 <= i < players.len() ==> is_player(groups[i], #[trigger] players[i])
        };
    let f = |p: PlayerGroup| player_streams(p);
    let n = |g: Seq<FlatStream>| g.len();
    groups_hold_all(rows, Level::Player);
    assert forall|i: int| 0 <= i < players.len() implies f(#[trigger] players[i]) == n(
        groups[i],
    ) by {
        assert(is_player(groups[i], players[i]));
        ranked_len(groups[i].map_values(|r: FlatStream| r.display));
    }
    sum_same(players, f, groups, n);
    sum_ranked(players, f);
    ranked_len(players);
    sum_at_least_len(groups, n);
}

proof fn sum_at_least_len<T>(s: Seq<T>, f: spec_fn(T) -> nat)
    requires
        forall|i: int| 0 <= i < s.len() ==> f(#[trigger] s[i]) >= 1,
    ensures
        s.len() <= sum(s, f),
    decreases s.len(),
{
    if s.len() > 0 {
        let t = s.drop_last();
        assert forall|i: int| 0 <= i < t.len() implies f(#[trigger] t[i]) >= 1 by {
            assert(t[i] == s[i]);
        }
        sum_at_least_len(t, f);
        assert(f(s[s.len() - 1]) >= 1);
    }
}

proof fn sum_at_most<T, U>(s: Seq<T>, f: spec_fn(T) -> nat, u: Seq<U>, g: spec_fn(U) -> nat)
    requires
        s.len() == u.len(),
        forall|i: int| 0 <= i < s.len() ==> f(#[trigger] s[i]) <= g(u[i]),
    ensures
        sum(s, f) <= sum(u, g),
    decreases s.len(),
{
    if s.len() > 0 {
        let t = s.drop_last();
        let v = u.drop_last();
        assert forall|i: int| 0 <= i < t.len() implies f(#[trigger] t[i]) <= g(v[i]) by {
            assert(t[i] == s[i]);
        }
        sum_at_most(t, f, v, g);
        assert(f(s[s.len() - 1]) <= g(u[u.len() - 1]));
    }
}

proof fn game_counts(rows: Seq<FlatStream>, g: GameGroup)
    requires
        is_game(rows, g),
    ensures
        game_streams(g) == rows.len(),
        game_players(g) <= rows.len(),
{
    let groups = groups_of(rows, Level::Server);
    let servers = choose|servers: Seq<ServerGroup>|
        {
            &&& g.servers@ == #[trigger] maps::ranked_down(servers)
            &&& servers.len() == groups.len()
            &&& forall|i: int|
                0 <= i < servers.len() ==> is_server(groups[i], #[trigger] servers[i])
        };
    let f = |s: ServerGroup| server_streams(s);
    let h = |s: ServerGroup| s.players@.len();
    let n = |g: Seq<FlatStream>| g.len();
    groups_hold_all(rows, Level::Server);
    assert forall|i: int| 0 <= i < servers.len() implies f(#[trigger] servers[i]) == n(groups[i])
        && h(servers[i]) <= n(groups[i]) by {
        server_counts(groups[i], servers[i]);
    }
    sum_same(servers, f, groups, n);
    sum_ranked(servers, f);
    sum_at_most(servers, h, groups, n);
    sum_ranked(servers, h);
}

/// The panel shows every stream once: it has as many streams as the list that
/// it was made of, and no more players than streams.
pub proof fn panel_shows_every_stream(rows: Seq<FlatStream>, games: Seq<GameGroup>)
    requires
        is_panel(rows, games),
    ensures
        total_streams(games) == rows.len(),
        total_players(games) <= rows.len(),
{
    let groups = groups_of(rows, Level::Game);
    let unsorted = choose|unsorted: Seq<GameGroup>|
        {
            &&& games == #[trigger] maps::ranked_down(unsorted)
            &&& unsorted.len() == groups.len()
            &&& forall|i: int|
                0 <= i < unsorted.len() ==> is_game(groups[i], #[trigger] unsorted[i])
        };
    let f = |g: GameGroup| game_streams(g);
    let h = |g: GameGroup| game_players(g);
    let n = |g: Seq<FlatStream>| g.len();
    groups_hold_all(rows, Level::Game);
    assert forall|i: int| 0 <= i < unsorted.len() implies f(#[trigger] unsorted[i]) == n(groups[i])
        && h(unsorted[i]) <= n(groups[i]) by {
        game_counts(groups[i], unsorted[i]);
    }
    sum_same(unsorted, f, groups, n);
    sum_ranked(unsorted, f);
    sum_at_most(unsorted, h, groups, n);
    sum_ranked(unsorted, h);
}

// ── Notations ───────────────────────────────────────────────────────────────

/// What is shown where nothing is known.
pub const DASH: &'static str = "\u{2014}";

/// A length of time in its two largest units.
pub open spec fn duration_text(secs: Option<u64>) -> Seq<char> {
    match secs {
        None => DASH@,
        Some(s) => if s < 60 {
            text::decimal(s as nat) + "s"@
        } else if s < 3600 {
            text::decimal((s / 60) as nat) + "m "@ + text::decimal((s % 60) as nat) + "s"@
        } else if s < 86400 {
            text::decimal((s / 3600) as nat) + "h "@ + text::decimal(((s % 3600) / 60) as nat)
                + "m"@
        } else {
            text::decimal((s / 86400) as nat) + "d "@ + text::decimal(((s % 86400) / 3600) as nat)
                + "h"@
        },
    }
}

/// A length of time in its two largest units.
pub fn format_duration(secs: Option<u64>) -> (r: String)
    ensures
        r@ == duration_text(secs),
{
    match secs {
        None => DASH.to_owned(),
        Some(s) => {
            let mut out: String = String::new();
            if s < 60 {
                text::push_decimal(&mut out, s);
                out.append("s");
            } else if s < 3600 {
                text::push_decimal(&mut out, s / 60);
                out.append("m ");
                text::push_decimal(&mut out, s % 60);
                out.append("s");
            } else if s < 86400 {
                text::push_decimal(&mut out, s / 3600);
                out.append("h ");
                text::push_decimal(&mut out, (s % 3600) / 60);
                out.append("m");
            } else {
                text::push_decimal(&mut out, s / 86400);
                out.append("d ");
                text::push_decimal(&mut out, (s % 86400) / 3600);
                out.append("h");
            }
            proof {
                assert(out@ =~= duration_text(secs));
            }
            out
        },
    }
}

/// What `chrono` shows for a unix timestamp in the format `%Y-%m-%d %H:%M UTC`;
/// nothing for one that it has no date for.
pub uninterp spec fn utc_minute(t: i64) -> Option<Seq<char>>;

/// `chrono::Utc.timestamp_opt(t, 0).single()` and `DateTime::format("%Y-%m-%d %H:%M UTC")`: the
/// date and the minute of a unix timestamp, in Universal Time; nothing for a timestamp outside the
/// years that `chrono` has dates for. Both depend on the timestamp alone.
#[verifier::external_body]
fn format_utc_minute(t: i64) -> (r: Option<String>)
    ensures
        text::opt_view(r) == utc_minute(t),
{
    chrono::TimeZone::timestamp_opt(&chrono::Utc, t, 0)
        .single()
        .map(|dt| dt.format("%Y-%m-%d %H:%M UTC").to_string())
}

/// A point in time, given what `chrono` shows for it.
pub open spec fn ts_text(shown: Option<Seq<char>>) -> Seq<char> {
    match shown {
        Some(s) => s,
        None => DASH@,
    }
}

/// The text that was found for a point in time, or a dash.
pub fn shown_or_dash(shown: Option<String>) -> (r: String)
    ensures
        r@ == ts_text(text::opt_view(shown)),
{
    match shown {
        Some(s) => s,
        None => DASH.to_owned(),
    }
}

/// A point in time, as `chrono` shows it, or a dash.
pub open spec fn time_text(ts: Option<u64>) -> Seq<char> {
    match ts {
        Some(t) => ts_text(utc_minute(t as i64)),
        None => DASH@,
    }
}

/// A point in time, as date and minute, or a dash.
pub fn format_ts(ts: Option<u64>) -> (r: String)
    ensures
        r@ == time_text(ts),
{
    match ts {
        Some(t) => {
            let at: i64 = #[verifier::truncate] (t as i64);
            shown_or_dash(format_utc_minute(at))
        },
        None => DASH.to_owned(),
    }
}

/// The size of a file: in bytes below a kilobyte; in kilobytes below a
/// megabyte; else in megabytes; to the nearest tenth.
pub open spec fn size_text(bytes: u64) -> Seq<char> {
    if bytes < 1024 {
        text::decimal(bytes as nat) + " B"@
    } else if bytes < 1048576 {
        number::tenths_text(number::rounded((bytes * 10) as nat, 1024)) + " KB"@
    } else {
        number::tenths_text(number::rounded(number::nearest_double(bytes as nat) * 10, 1048576))
            + " MB"@
    }
}

/// The size of a file in bytes, kilobytes or megabytes.
pub fn format_size(bytes: u64) -> (r: String)
    ensures
        r@ == size_text(bytes),
{
    let mut out: String = String::new();
    if bytes < 1024 {
        text::push_decimal(&mut out, bytes);
        out.append(" B");
        proof {
            assert(out@ =~= size_text(bytes));
        }
        return out;
    }
    let kb: bool = bytes < 1048576;
    let t: u128 = if kb {
        number::rounded_of(bytes as u128 * 10, 1024)
    } else {
        number::rounded_of(number::nearest_double_of(bytes) * 10, 1048576)
    };
    number::push_tenths(&mut out, t as u64);
    if kb {
        out.append(" KB");
    } else {
        out.append(" MB");
    }
    proof {
        assert(out@ =~= size_text(bytes));
    }
    out
}

/// What a character is written as in HTML.
pub open spec fn escaped_char(c: char) -> Seq<char> {
    if c == '&' {
        "&amp;"@
    } else if c == '<' {
        "&lt;"@
    } else if c == '>' {
        "&gt;"@
    } else if c == '"' {
        "&quot;"@
    } else {
        seq![c]
    }
}

/// A text as it is written in HTML.
pub open spec fn escaped(s: Seq<char>) -> Seq<char>
    decreases s.len(),
{
    if s.len() == 0 {
        s
    } else {
        escaped(s.drop_last()) + escaped_char(s.last())
    }
}

/// A text as it is written in HTML.
pub fn html_escape(s: &str) -> (r: String)
    ensures
        r@ == escaped(s@),
{
    let v = text::chars_of(s);
    let mut out: String = String::new();
    let mut i: usize = 0;
    proof {
        assert(v@.take(0) =~= Seq::<char>::empty());
    }
    while i < v.len()
        invariant
            v@ == s@,
            i <= v@.len(),
            out@ == escaped(v@.take(i as int)),
        decreases v@.len() - i,
    {
        let c: char = v[i];
        let ghost before = out@;
        proof {
            assert(v@.take(i + 1).drop_last() =~= v@.take(i as int));
        }
        if c == '&' {
            out.append("&amp;");
        } else if c == '<' {
            out.append("&lt;");
        } else if c == '>' {
            out.append("&gt;");
        } else if c == '"' {
            out.append("&quot;");
        } else {
            out.push(c);
            proof {
                assert(out@ =~= before + seq![c]);
            }
        }
        i += 1;
    }
    proof {
        assert(v@.take(i as int) =~= s@);
    }
    out
}

/// Escaped text opens no tag and closes no attribute.
pub proof fn escaped_text_is_inert(s: Seq<char>)
    ensures
        !text::has_char(escaped(s), '<'),
        !text::has_char(escaped(s), '>'),
        !text::has_char(escaped(s), '"'),
    decreases s.len(),
{
    reveal_strlit("&amp;");
    reveal_strlit("&lt;");
    reveal_strlit("&gt;");
    reveal_strlit("&quot;");
    if s.len() > 0 {
        escaped_text_is_inert(s.drop_last());
        let a = escaped(s.drop_last());
        let b = escaped_char(s.last());
        assert forall|i: int| 0 <= i < (a + b).len() implies #[trigger] (a + b)[i] != '<' && (a
            + b)[i] != '>' && (a + b)[i] != '"' by {
            if i < a.len() {
                assert((a + b)[i] == a[i]);
            } else {
                assert((a + b)[i] == b[i - a.len()]);
            }
        }
    }
}

/// Escaping two texts one after the other is escaping them together.
pub proof fn escaping_distributes(a: Seq<char>, b: Seq<char>)
    ensures
        escaped(a + b) == escaped(a) + escaped(b),
    decreases b.len(),
{
    if b.len() == 0 {
        assert(a + b =~= a);
        assert(escaped(a) + escaped(b) =~= escaped(a));
    } else {
        escaping_distributes(a, b.drop_last());
        assert((a + b).drop_last() =~= a + b.drop_last());
        assert(escaped(a + b) =~= escaped(a) + escaped(b));
    }
}

/// The character that stands for itself at the front of escaped text, and how
/// many characters it is written with.
pub open spec fn first_escaped(t: Seq<char>) -> (char, int) {
    if "&amp;"@.is_prefix_of(t) {
        ('&', 5)
    } else if "&lt;"@.is_prefix_of(t) {
        ('<', 4)
    } else if "&gt;"@.is_prefix_of(t) {
        ('>', 4)
    } else if "&quot;"@.is_prefix_of(t) {
        ('"', 6)
    } else {
        (t[0], 1)
    }
}

/// Escaped text read back.
pub open spec fn unescaped(t: Seq<char>) -> Seq<char>
    decreases t.len(),
{
    if t.len() == 0 {
        t
    } else {
        let (c, n) = first_escaped(t);
        if 0 < n <= t.len() {
            seq![c] + unescaped(t.skip(n))
        } else {
            t
        }
    }
}

proof fn first_of_escaped(c: char, rest: Seq<char>)
    ensures
        first_escaped(escaped_char(c) + rest) == (c, escaped_char(c).len() as int),
{
    reveal_strlit("&amp;");
    reveal_strlit("&lt;");
    reveal_strlit("&gt;");
    reveal_strlit("&quot;");
    let t = escaped_char(c) + rest;
    if c == '&' {
        assert("&amp;"@ =~= t.subrange(0, 5));
    } else if c == '<' {
        assert(t[1] == 'l');
        assert("&amp;"@[1] == 'a');
        assert("&lt;"@ =~= t.subrange(0, 4));
    } else if c == '>' {
        assert(t[1] == 'g');
        assert("&amp;"@[1] == 'a');
        assert("&lt;"@[1] == 'l');
        assert("&gt;"@ =~= t.subrange(0, 4));
    } else if c == '"' {
        assert(t[1] == 'q');
        assert("&amp;"@[1] == 'a');
        assert("&lt;"@[1] == 'l');
        assert("&gt;"@[1] == 'g');
        assert("&quot;"@ =~= t.subrange(0, 6));
    } else {
        assert(t[0] == c);
        assert("&amp;"@[0] == '&');
        assert("&lt;"@[0] == '&');
        assert("&gt;"@[0] == '&');
        assert("&quot;"@[0] == '&');
    }
}

/// Escaped text can be read back.
pub proof fn escaped_text_reads_back(s: Seq<char>)
    ensures
        unescaped(escaped(s)) == s,
    decreases s.len(),
{
    reveal_strlit("&amp;");
    reveal_strlit("&lt;");
    reveal_strlit("&gt;");
    reveal_strlit("&quot;");
    if s.len() > 0 {
        let c = s[0];
        let one = seq![c];
        let rest = s.skip(1);
        assert(s =~= one + rest);
        escaping_distributes(one, rest);
        reveal_with_fuel(escaped, 2);
        assert(one.drop_last() =~= Seq::<char>::empty());
        assert(escaped(one) =~= escaped_char(c));
        escaped_text_reads_back(rest);
        first_of_escaped(c, escaped(rest));
        let t = escaped(s);
        assert(t == escaped_char(c) + escaped(rest));
        assert(t.skip(escaped_char(c).len() as int) =~= escaped(rest));
        assert(unescaped(t) =~= s);
    }
}

/// Every ampersand of escaped text begins one of the four names.
pub proof fn ampersands_begin_names(s: Seq<char>, i: int)
    requires
        0 <= i < escaped(s).len(),
        escaped(s)[i] == '&',
    ensures
        first_escaped(escaped(s).skip(i)).1 > 1,
    decreases s.len(),
{
    reveal_strlit("&amp;");
    reveal_strlit("&lt;");
    reveal_strlit("&gt;");
    reveal_strlit("&quot;");
    let c = s[0];
    let one = seq![c];
    let rest = s.skip(1);
    assert(s =~= one + rest);
    escaping_distributes(one, rest);
    reveal_with_fuel(escaped, 2);
    assert(one.drop_last() =~= Seq::<char>::empty());
    assert(escaped(one) =~= escaped_char(c));
    let n = escaped_char(c).len() as int;
    if i < n {
        assert(escaped(s)[i] == escaped_char(c)[i]);
        assert(i == 0);
        first_of_escaped(c, escaped(rest));
        assert(escaped(s).skip(0) =~= escaped(s));
    } else {
        assert(escaped(s)[i] == escaped(rest)[i - n]);
        ampersands_begin_names(rest, i - n);
        assert(escaped(s).skip(i) =~= escaped(rest).skip(i - n));
    }
}

// ── The page ────────────────────────────────────────────────────────────────

/// A game's row, cut where its number, its number again and its name belong.
pub const GAME_ROW: [&'static str; 4] = [
    "<tr class=\"game-hdr\" data-gid=\"",
    "\" onclick=\"toggleGame(",
    ")\"><td colspan=\"9\"><span class=\"chevron\">&#9660;</span>",
    "</td></tr>\n",
];

/// A server's row, cut where the numbers of its game and its own, both again,
/// and its name belong.
pub const SERVER_ROW: [&'static str; 6] = [
    "<tr class=\"server-hdr\" data-gid=\"",
    "\" data-sid=\"",
    "\" onclick=\"toggleServer(",
    ",",
    ")\"><td colspan=\"9\"><span class=\"chevron\">&#9660;</span>",
    "</td></tr>\n",
];

/// A player's row, cut where the numbers of its game, its server and its own,
/// all again, and its name belong.
pub const PLAYER_ROW: [&'static str; 8] = [
    "<tr class=\"player-hdr\" data-gid=\"",
    "\" data-sid=\"",
    "\" data-pid=\"",
    "\" onclick=\"togglePlayer(",
    ",",
    ",",
    ")\"><td colspan=\"9\"><span class=\"chevron\">&#9660;</span>",
    "</td></tr>\n",
];

/// A stream's row, cut where its class, the numbers of its game, its server and
/// its player, the words that it is searched by, and its nine cells belong.
pub const STREAM_ROW: [&'static str; 15] = [
    "<tr class=\"stream-row ",
    "\" data-gid=\"",
    "\" data-sid=\"",
    "\" data-pid=\"",
    "\" data-search=\"",
    "\"><td class=\"mono\">",
    "</td><td class=\"ts\">",
    "</td><td class=\"ts\">",
    "</td><td class=\"num dur\">",
    "</td><td class=\"num\">",
    "</td><td class=\"num\">",
    "</td><td>",
    "</td><td>",
    "</td><td><a href=\"",
    "\" target=\"_blank\">View</a></td></tr>\n",
];

/// What the table holds where there is no stream.
pub const EMPTY_ROW: &'static str = "<tr><td colspan=\"9\" class=\"empty\">No streams yet.</td></tr>";

/// The words that a stream is searched by.
pub open spec fn search_text(
    s: StreamDisplay,
    player: Seq<char>,
    server: Seq<char>,
    game: Seq<char>,
) -> Seq<char> {
    text::lowercase(s.stream_id@) + " "@ + text::lowercase(player) + " "@ + text::lowercase(server)
        + " "@ + text::lowercase(game) + " "@ + (if s.connected {
        "live"@
    } else {
        "offline"@
    }) + " "@ + (if s.public_stream {
        "public"@
    } else {
        "private"@
    })
}

/// How long a stream has run, by its log.
pub open spec fn span_of(s: StreamDisplay) -> Option<u64> {
    match (s.first_ts, s.last_ts) {
        (Some(f), Some(l)) => Some(if l >= f {
            (l - f) as u64
        } else {
            0
        }),
        _ => None,
    }
}

/// A stream's row.
pub open spec fn stream_row(
    s: StreamDisplay,
    gi: nat,
    si: nat,
    pi: nat,
    player: Seq<char>,
    server: Seq<char>,
    game: Seq<char>,
) -> Seq<char> {
    text::filled(
        text::strs(STREAM_ROW@),
        seq![
            if s.connected { "live-row"@ } else { ""@ },
            text::decimal(gi),
            text::decimal(si),
            text::decimal(pi),
            escaped(search_text(s, player, server, game)),
            s.stream_id@,
            time_text(s.first_ts),
            time_text(s.last_ts),
            duration_text(span_of(s)),
            text::decimal(s.batches as nat),
            size_text(s.file_bytes),
            if s.connected {
                "<span class=\"live\">&#9679; Live</span>"@
            } else {
                "<span class=\"offline\">&#9679; Offline</span>"@
            },
            if s.public_stream {
                "<span class=\"pub-yes\">&#10003; Yes</span>"@
            } else {
                "<span class=\"pub-no\">&#8212;</span>"@
            },
            escaped(access::view_path_of(s.stream_id@, s.view_token@)),
        ],
    )
}

/// The rows of a player's first `n` streams.
pub open spec fn stream_rows(
    p: PlayerGroup,
    gi: nat,
    si: nat,
    pi: nat,
    server: Seq<char>,
    game: Seq<char>,
    n: nat,
) -> Seq<char>
    decreases n,
{
    if n == 0 {
        Seq::empty()
    } else {
        stream_rows(p, gi, si, pi, server, game, (n - 1) as nat) + stream_row(
            p.streams@[n - 1],
            gi,
            si,
            pi,
            p.label@,
            server,
            game,
        )
    }
}

/// A player's header.
pub open spec fn player_row(p: PlayerGroup, gi: nat, si: nat, pi: nat) -> Seq<char> {
    text::filled(
        text::strs(PLAYER_ROW@),
        seq![
            text::decimal(gi),
            text::decimal(si),
            text::decimal(pi),
            text::decimal(gi),
            text::decimal(si),
            text::decimal(pi),
            escaped(p.label@),
        ],
    )
}

/// The rows of a server's first `n` players, each with its streams.
pub open spec fn player_rows(s: ServerGroup, gi: nat, si: nat, game: Seq<char>, n: nat) -> Seq<char>
    decreases n,
{
    if n == 0 {
        Seq::empty()
    } else {
        let p = s.players@[n - 1];
        player_rows(s, gi, si, game, (n - 1) as nat) + player_row(p, gi, si, (n - 1) as nat)
            + stream_rows(p, gi, si, (n - 1) as nat, s.label@, game, p.streams@.len())
    }
}

/// A server's header.
pub open spec fn server_row(s: ServerGroup, gi: nat, si: nat) -> Seq<char> {
    text::filled(
        text::strs(SERVER_ROW@),
        seq![
            text::decimal(gi),
            text::decimal(si),
            text::decimal(gi),
            text::decimal(si),
            escaped(s.label@),
        ],
    )
}

/// The rows of a game's first `n` servers, each with its players.
pub open spec fn server_rows(g: GameGroup, gi: nat, n: nat) -> Seq<char>
    decreases n,
{
    if n == 0 {
        Seq::empty()
    } else {
        let s = g.servers@[n - 1];
        server_rows(g, gi, (n - 1) as nat) + server_row(s, gi, (n - 1) as nat) + player_rows(
            s,
            gi,
            (n - 1) as nat,
            g.label@,
            s.players@.len(),
        )
    }
}

/// A game's header.
pub open spec fn game_row(g: GameGroup, gi: nat) -> Seq<char> {
    text::filled(
        text::strs(GAME_ROW@),
        seq![text::decimal(gi), text::decimal(gi), escaped(g.label@)],
    )
}

/// The rows of the first `n` games, each with its servers.
pub open spec fn game_rows(games: Seq<GameGroup>, n: nat) -> Seq<char>
    decreases n,
{
    if n == 0 {
        Seq::empty()
    } else {
        let g = games[n - 1];
        game_rows(games, (n - 1) as nat) + game_row(g, (n - 1) as nat) + server_rows(
            g,
            (n - 1) as nat,
            g.servers@.len(),
        )
    }
}

/// The rows of the table.
pub open spec fn table_text(games: Seq<GameGroup>) -> Seq<char> {
    let rows = game_rows(games, games.len());
    if rows.len() == 0 {
        EMPTY_ROW@
    } else {
        rows
    }
}

/// The page that shows the games.
pub open spec fn page_text(games: Seq<GameGroup>) -> Seq<char> {
    text::filled(
        text::strs(admin_page::PAGE@),
        seq![
            text::decimal(total_streams(games)),
            text::decimal(total_players(games)),
            text::decimal(total_streams(games)),
            text::decimal(total_players(games)),
            table_text(games),
        ],
    )
}

fn search_words(s: &StreamDisplay, player: &str, server: &str, game: &str) -> (r: String)
    ensures
        r@ == search_text(*s, player@, server@, game@),
{
    let mut out: String = text::to_lowercase(s.stream_id.as_str());
    out.append(" ");
    out.append(text::to_lowercase(player).as_str());
    out.append(" ");
    out.append(text::to_lowercase(server).as_str());
    out.append(" ");
    out.append(text::to_lowercase(game).as_str());
    out.append(" ");
    if s.connected {
        out.append("live");
    } else {
        out.append("offline");
    }
    out.append(" ");
    if s.public_stream {
        out.append("public");
    } else {
        out.append("private");
    }
    out
}

fn render_stream(
    s: &StreamDisplay,
    gi: usize,
    si: usize,
    pi: usize,
    player: &str,
    server: &str,
    game: &str,
) -> (r: String)
    ensures
        r@ == stream_row(*s, gi as nat, si as nat, pi as nat, player@, server@, game@),
{
    let mut args: Vec<String> = Vec::new();
    args.push(
        if s.connected {
            "live-row".to_owned()
        } else {
            "".to_owned()
        },
    );
    args.push(text::decimal_string(gi as u64));
    args.push(text::decimal_string(si as u64));
    args.push(text::decimal_string(pi as u64));
    args.push(html_escape(search_words(s, player, server, game).as_str()));
    args.push(s.stream_id.clone());
    args.push(format_ts(s.first_ts));
    args.push(format_ts(s.last_ts));
    let span: Option<u64> = match (s.first_ts, s.last_ts) {
        (Some(f), Some(l)) => Some(l.saturating_sub(f)),
        _ => None,
    };
    args.push(format_duration(span));
    args.push(text::decimal_string(s.batches as u64));
    args.push(format_size(s.file_bytes));
    args.push(
        if s.connected {
            "<span class=\"live\">&#9679; Live</span>".to_owned()
        } else {
            "<span class=\"offline\">&#9679; Offline</span>".to_owned()
        },
    );
    args.push(
        if s.public_stream {
            "<span class=\"pub-yes\">&#10003; Yes</span>".to_owned()
        } else {
            "<span class=\"pub-no\">&#8212;</span>".to_owned()
        },
    );
    args.push(
        html_escape(access::view_path(s.stream_id.as_str(), s.view_token.as_str()).as_str()),
    );
    let ghost want = seq![
        if s.connected { "live-row"@ } else { ""@ },
        text::decimal(gi as nat),
        text::decimal(si as nat),
        text::decimal(pi as nat),
        escaped(search_text(*s, player@, server@, game@)),
        s.stream_id@,
        time_text(s.first_ts),
        time_text(s.last_ts),
        duration_text(span_of(*s)),
        text::decimal(s.batches as nat),
        size_text(s.file_bytes),
        if s.connected {
            "<span class=\"live\">&#9679; Live</span>"@
        } else {
            "<span class=\"offline\">&#9679; Offline</span>"@
        },
        if s.public_stream {
            "<span class=\"pub-yes\">&#10003; Yes</span>"@
        } else {
            "<span class=\"pub-no\">&#8212;</span>"@
        },
        escaped(access::view_path_of(s.stream_id@, s.view_token@)),
    ];
    proof {
        assert(text::views(args@) =~= want);
    }
    text::fill(&STREAM_ROW, &args)
}

fn render_player_row(p: &PlayerGroup, gi: usize, si: usize, pi: usize) -> (r: String)
    ensures
        r@ == player_row(*p, gi as nat, si as nat, pi as nat),
{
    let mut args: Vec<String> = Vec::new();
    args.push(text::decimal_string(gi as u64));
    args.push(text::decimal_string(si as u64));
    args.push(text::decimal_string(pi as u64));
    args.push(text::decimal_string(gi as u64));
    args.push(text::decimal_string(si as u64));
    args.push(text::decimal_string(pi as u64));
    args.push(html_escape(p.label.as_str()));
    proof {
        assert(text::views(args@) =~= seq![
            text::decimal(gi as nat),
            text::decimal(si as nat),
            text::decimal(pi as nat),
            text::decimal(gi as nat),
            text::decimal(si as nat),
            text::decimal(pi as nat),
            escaped(p.label@),
        ]);
    }
    text::fill(&PLAYER_ROW, &args)
}

fn render_server_row(s: &ServerGroup, gi: usize, si: usize) -> (r: String)
    ensures
        r@ == server_row(*s, gi as nat, si as nat),
{
    let mut args: Vec<String> = Vec::new();
    args.push(text::decimal_string(gi as u64));
    args.push(text::decimal_string(si as u64));
    args.push(text::decimal_string(gi as u64));
    args.push(text::decimal_string(si as u64));
    args.push(html_escape(s.label.as_str()));
    proof {
        assert(text::views(args@) =~= seq![
            text::decimal(gi as nat),
            text::decimal(si as nat),
            text::decimal(gi as nat),
            text::decimal(si as nat),
            escaped(s.label@),
        ]);
    }
    text::fill(&SERVER_ROW, &args)
}

fn render_game_row(g: &GameGroup, gi: usize) -> (r: String)
    ensures
        r@ == game_row(*g, gi as nat),
{
    let mut args: Vec<String> = Vec::new();
    args.push(text::decimal_string(gi as u64));
    args.push(text::decimal_string(gi as u64));
    args.push(html_escape(g.label.as_str()));
    proof {
        assert(text::views(args@) =~= seq![
            text::decimal(gi as nat),
            text::decimal(gi as nat),
            escaped(g.label@),
        ]);
    }
    text::fill(&GAME_ROW, &args)
}

fn render_streams(p: &PlayerGroup, gi: usize, si: usize, pi: usize, server: &str, game: &str) -> (r:
    String)
    ensures
        r@ == stream_rows(
            *p,
            gi as nat,
            si as nat,
            pi as nat,
            server@,
            game@,
            p.streams@.len(),
        ),
{
    let mut out: String = String::new();
    let mut i: usize = 0;
    while i < p.streams.len()
        invariant
            i <= p.streams@.len(),
            out@ == stream_rows(*p, gi as nat, si as nat, pi as nat, server@, game@, i as nat),
        decreases p.streams@.len() - i,
    {
        let row = render_stream(&p.streams[i], gi, si, pi, p.label.as_str(), server, game);
        out.append(row.as_str());
        i += 1;
    }
    out
}

fn render_players(s: &ServerGroup, gi: usize, si: usize, game: &str) -> (r: String)
    ensures
        r@ == player_rows(*s, gi as nat, si as nat, game@, s.players@.len()),
{
    let mut out: String = String::new();
    let mut i: usize = 0;
    while i < s.players.len()
        invariant
            i <= s.players@.len(),
            out@ == player_rows(*s, gi as nat, si as nat, game@, i as nat),
        decreases s.players@.len() - i,
    {
        let p = &s.players[i];
        out.append(render_player_row(p, gi, si, i).as_str());
        out.append(render_streams(p, gi, si, i, s.label.as_str(), game).as_str());
        i += 1;
    }
    out
}

fn render_servers(g: &GameGroup, gi: usize) -> (r: String)
    ensures
        r@ == server_rows(*g, gi as nat, g.servers@.len()),
{
    let mut out: String = String::new();
    let mut i: usize = 0;
    while i < g.servers.len()
        invariant
            i <= g.servers@.len(),
            out@ == server_rows(*g, gi as nat, i as nat),
        decreases g.servers@.len() - i,
    {
        let s = &g.servers[i];
        out.append(render_server_row(s, gi, i).as_str());
        out.append(render_players(s, gi, i, g.label.as_str()).as_str());
        i += 1;
    }
    out
}

/// The rows of the table: every game, server, player and stream in turn; one
/// row that says so where there is no stream.
pub fn render_table(games: &Vec<GameGroup>) -> (r: String)
    ensures
        r@ == table_text(games@),
{
    let mut out: String = String::new();
    let mut i: usize = 0;
    while i < games.len()
        invariant
            i <= games@.len(),
            out@ == game_rows(games@, i as nat),
        decreases games@.len() - i,
    {
        let g = &games[i];
        out.append(render_game_row(g, i).as_str());
        out.append(render_servers(g, i).as_str());
        i += 1;
    }
    if out.as_str().is_empty() {
        EMPTY_ROW.to_owned()
    } else {
        out
    }
}

/// A part of a sum is at most the whole.
proof fn sum_take<T>(s: Seq<T>, n: int, f: spec_fn(T) -> nat)
    requires
        0 <= n <= s.len(),
    ensures
        sum(s.take(n), f) <= sum(s, f),
    decreases s.len(),
{
    if n == s.len() {
        assert(s.take(n) =~= s);
    } else {
        sum_take(s.drop_last(), n, f);
        assert(s.drop_last().take(n) =~= s.take(n));
    }
}

fn count_game_players(g: &GameGroup) -> (r: usize)
    requires
        game_players(*g) <= usize::MAX,
    ensures
        r == game_players(*g),
{
    let ghost f = |s: ServerGroup| s.players@.len();
    let mut n: usize = 0;
    let mut i: usize = 0;
    while i < g.servers.len()
        invariant
            f == (|s: ServerGroup| s.players@.len()),
            i <= g.servers@.len(),
            sum(g.servers@, f) <= usize::MAX,
            n == sum(g.servers@.take(i as int), f),
        decreases g.servers@.len() - i,
    {
        proof {
            assert(g.servers@.take(i + 1).drop_last() =~= g.servers@.take(i as int));
            sum_take(g.servers@, i + 1, f);
            assert(f(g.servers@[i as int]) == g.servers@[i as int].players@.len());
        }
        n = n + g.servers[i].players.len();
        i += 1;
    }
    proof {
        assert(g.servers@.take(i as int) =~= g.servers@);
    }
    n
}

fn count_players(games: &Vec<GameGroup>) -> (r: usize)
    requires
        total_players(games@) <= usize::MAX,
    ensures
        r == total_players(games@),
{
    let ghost f = |g: GameGroup| game_players(g);
    let mut n: usize = 0;
    let mut i: usize = 0;
    while i < games.len()
        invariant
            f == (|g: GameGroup| game_players(g)),
            i <= games@.len(),
            sum(games@, f) <= usize::MAX,
            n == sum(games@.take(i as int), f),
        decreases games@.len() - i,
    {
        proof {
            assert(games@.take(i + 1).drop_last() =~= games@.take(i as int));
            sum_take(games@, i + 1, f);
            assert(f(games@[i as int]) == game_players(games@[i as int]));
        }
        n = n + count_game_players(&games[i]);
        i += 1;
    }
    proof {
        assert(games@.take(i as int) =~= games@);
    }
    n
}

/// The admin panel's page for the streams `rows`.
pub fn render_panel(rows: Vec<FlatStream>) -> (r: String)
    ensures
        exists|games: Seq<GameGroup>| #[trigger]
            is_panel(rows@, games) && r@ == page_text(games),
{
    let streams: usize = rows.len();
    let games = group_streams(rows);
    proof {
        panel_shows_every_stream(rows@, games@);
    }
    let players: usize = count_players(&games);
    let mut args: Vec<String> = Vec::new();
    args.push(text::decimal_string(streams as u64));
    args.push(text::decimal_string(players as u64));
    args.push(text::decimal_string(streams as u64));
    args.push(text::decimal_string(players as u64));
    args.push(render_table(&games));
    proof {
        assert(text::views(args@) =~= seq![
            text::decimal(total_streams(games@)),
            text::decimal(total_players(games@)),
            text::decimal(total_streams(games@)),
            text::decimal(total_players(games@)),
            table_text(games@),
        ]);
    }
    text::fill(&admin_page::PAGE, &args)
}

} // verus!
