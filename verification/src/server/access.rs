//! Who may do what: tokens, passwords, the address that a request came from,
//! and the creation of streams.
use vstd::prelude::*;

use crate::server::journal::Journal;
use crate::server::streams;
use crate::server::streams::{StreamEntry, StreamRegistry};
use crate::text;

verus! {

/// Whether a supplied token is the expected one. Every character is looked at,
/// whatever the ones before it were.
pub fn tokens_match(expected: &str, supplied: &str) -> (r: bool)
    ensures
        r == (expected@ == supplied@),
{
    let a = text::chars_of(expected);
    let b = text::chars_of(supplied);
    if a.len() != b.len() {
        return false;
    }
    let mut same: bool = true;
    let mut i: usize = 0;
    while i < a.len()
        invariant
            a@ == expected@,
            b@ == supplied@,
            a@.len() == b@.len(),
            i <= a@.len(),
            same == (a@.take(i as int) =~= b@.take(i as int)),
        decreases a@.len() - i,
    {
        let here: bool = a[i] == b[i];
        proof {
            assert(a@.take(i + 1) =~= a@.take(i as int).push(a@[i as int]));
            assert(b@.take(i + 1) =~= b@.take(i as int).push(b@[i as int]));
            if a@.take(i + 1) =~= b@.take(i + 1) {
                assert(a@.take(i + 1).drop_last() =~= a@.take(i as int));
                assert(b@.take(i + 1).drop_last() =~= b@.take(i as int));
                assert(a@.take(i + 1).last() == b@.take(i + 1).last());
            }
        }
        same = here && same;
        i += 1;
    }
    proof {
        assert(a@.take(i as int) =~= a@);
        assert(b@.take(i as int) =~= b@);
    }
    same
}

/// The token in an `Authorization` header of the form `Bearer <token>`.
pub open spec fn bearer_of(header: Option<Seq<char>>) -> Option<Seq<char>> {
    match header {
        Some(h) => text::after_prefix(h, "Bearer "@),
        None => None,
    }
}

/// The token in an `Authorization` header of the form `Bearer <token>`.
pub fn extract_bearer(header: &Option<String>) -> (r: Option<String>)
    ensures
        text::opt_view(r) == bearer_of(text::opt_view(*header)),
{
    match header {
        Some(h) => text::strip_prefix(h.as_str(), "Bearer "),
        None => None,
    }
}

/// The first address of a header that lists them from the client on, without
/// white space around it.
pub open spec fn first_address(header: Option<Seq<char>>) -> Seq<char> {
    match header {
        Some(h) => text::trimmed(text::pieces(h, ',')[0]),
        None => Seq::empty(),
    }
}

/// A header without white space around it.
pub open spec fn trimmed_header(header: Option<Seq<char>>) -> Seq<char> {
    match header {
        Some(h) => text::trimmed(h),
        None => Seq::empty(),
    }
}

/// The best available address of the client: the leftmost one in
/// `X-Forwarded-For`, which a trusted reverse proxy sets, then `X-Real-IP`,
/// then the address of the connection itself.
pub open spec fn best_address(
    forwarded_for: Option<Seq<char>>,
    real_ip: Option<Seq<char>>,
    peer: Seq<char>,
) -> Seq<char> {
    if first_address(forwarded_for).len() > 0 {
        first_address(forwarded_for)
    } else if trimmed_header(real_ip).len() > 0 {
        trimmed_header(real_ip)
    } else {
        peer
    }
}

/// The best available address of the client.
pub fn client_ip(forwarded_for: &Option<String>, real_ip: &Option<String>, peer: &str) -> (r: String)
    ensures
        r@ == best_address(text::opt_view(*forwarded_for), text::opt_view(*real_ip), peer@),
{
    if let Some(list) = forwarded_for {
        let parts = text::split(list.as_str(), ',');
        proof {
            assert(text::views(parts@)[0] == parts@[0]@);
        }
        let first = text::trim(parts[0].as_str());
        if !first.as_str().is_empty() {
            return first;
        }
    }
    if let Some(h) = real_ip {
        let one = text::trim(h.as_str());
        if !one.as_str().is_empty() {
            return one;
        }
    }
    peer.to_owned()
}

/// The secrets that the server was started with.
pub struct ServerState {
    /// Secret that authorises the admin panel.
    pub admin_token: String,
    /// Optional password required to create streams. When `None`, stream
    /// creation is open to anyone.
    pub stream_password: Option<String>,
}

impl ServerState {
    /// The state for the settings that the server finds: an empty password
    /// counts as none.
    pub fn new(admin_token: String, stream_password: Option<String>) -> (r: Self)
        ensures
            r.admin_token == admin_token,
            r.stream_password == match stream_password {
                Some(p) => if p@.len() == 0 {
                    None
                } else {
                    Some(p)
                },
                None => None,
            },
    {
        let password = match stream_password {
            Some(p) => if p.as_str().is_empty() {
                None
            } else {
                Some(p)
            },
            None => None,
        };
        ServerState { admin_token, stream_password: password }
    }

    pub fn is_admin_token(&self, token: &str) -> (r: bool)
        ensures
            r == (self.admin_token@ == token@),
    {
        tokens_match(self.admin_token.as_str(), token)
    }

    /// Returns `true` when the supplied password satisfies the stream-creation
    /// policy: open servers always return `true`; password-protected servers
    /// require a match.
    pub fn stream_auth_ok(&self, supplied: &Option<String>) -> (r: bool)
        ensures
            r == match self.stream_password {
                None => true,
                Some(required) => match *supplied {
                    Some(s) => required@ == s@,
                    None => false,
                },
            },
    {
        match &self.stream_password {
            None => true,
            Some(required) => match supplied {
                Some(s) => tokens_match(required.as_str(), s.as_str()),
                None => false,
            },
        }
    }

    pub fn requires_stream_password(&self) -> (r: bool)
        ensures
            r == self.stream_password is Some,
    {
        self.stream_password.is_some()
    }
}

/// The query of a viewer's request.
pub struct ViewQuery {
    pub vtok: Option<String>,
}

/// The query of a request for the admin panel.
pub struct AdminQuery {
    pub atok: Option<String>,
}

/// Whether a request may see the admin panel: it carries a token, and that is
/// the admin's.
pub fn admin_allowed(state: &ServerState, query: &AdminQuery) -> (r: bool)
    ensures
        r == match query.atok {
            Some(t) => t@.len() > 0 && t@ == state.admin_token@,
            None => false,
        },
{
    match &query.atok {
        Some(t) => !t.as_str().is_empty() && state.is_admin_token(t.as_str()),
        None => false,
    }
}

/// The answer to a request, by the status code of HTTP.
#[derive(Clone, Copy, PartialEq, Eq, Structural)]
pub enum Access {
    /// 200
    Granted,
    /// 401
    Unauthorized,
    /// 404
    NotFound,
}

/// Whether the view token opens a stream of the registry.
pub open spec fn view_token_opens<H>(
    reg: StreamRegistry<H>,
    stream_id: Seq<char>,
    vtok: Option<Seq<char>>,
) -> bool {
    &&& reg.streams().dom().contains(streams::one(stream_id))
    &&& vtok == Some(reg.streams()[streams::one(stream_id)].view_token@)
}

/// Whether the view token opens the stream.
pub fn is_valid_view_token<H>(reg: &StreamRegistry<H>, stream_id: &str, query: &ViewQuery) -> (r:
    bool)
    ensures
        r == view_token_opens(*reg, stream_id@, text::opt_view(query.vtok)),
{
    match reg.get(stream_id) {
        Some(entry) => match &query.vtok {
            Some(t) => tokens_match(entry.view_token.as_str(), t.as_str()),
            None => false,
        },
        None => false,
    }
}

/// Whether a client may push data to a stream: it presents the stream's own
/// token.
pub fn ingest_allowed<H>(reg: &StreamRegistry<H>, stream_id: &str, authorization: &Option<String>)
    -> (r: bool)
    ensures
        r == (reg.streams().dom().contains(streams::one(stream_id@)) && bearer_of(
            text::opt_view(*authorization),
        ) == Some(reg.streams()[streams::one(stream_id@)].stream_token@)),
{
    match extract_bearer(authorization) {
        Some(token) => match reg.get(stream_id) {
            Some(entry) => tokens_match(entry.stream_token.as_str(), token.as_str()),
            None => false,
        },
        None => false,
    }
}

/// What a viewer may poll of a stream.
pub struct StreamStats {
    pub batches: usize,
    pub first_ts: Option<u64>,
    pub last_ts: Option<u64>,
    pub client_connected: bool,
}

/// The stream's numbers, as its journal and its client's state give them.
pub fn stream_stats(journal: &Journal, client_connected: bool) -> (r: StreamStats)
    ensures
        r.batches == journal.index@.len(),
        r.first_ts == if journal.index@.len() > 0 {
            Some(journal.index@.first().wall_ts)
        } else {
            None
        },
        r.last_ts == if journal.index@.len() > 0 {
            Some(journal.index@.last().wall_ts)
        } else {
            None
        },
        r.client_connected == client_connected,
{
    StreamStats {
        batches: journal.len(),
        first_ts: journal.first_ts(),
        last_ts: journal.last_ts(),
        client_connected,
    }
}

/// The answer to a request for a stream's numbers: 404 where there is no such
/// stream, 401 where the view token is not its own.
pub fn stats_access<H>(reg: &StreamRegistry<H>, stream_id: &str, query: &ViewQuery) -> (r: Access)
    ensures
        r == if !reg.streams().dom().contains(streams::one(stream_id@)) {
            Access::NotFound
        } else if view_token_opens(*reg, stream_id@, text::opt_view(query.vtok)) {
            Access::Granted
        } else {
            Access::Unauthorized
        },
{
    if reg.get(stream_id).is_none() {
        Access::NotFound
    } else if is_valid_view_token(reg, stream_id, query) {
        Access::Granted
    } else {
        Access::Unauthorized
    }
}

// ── Stream creation ─────────────────────────────────────────────────────────

/// How many characters of a random token make a stream's public identifier.
pub const STREAM_ID_CHARS: usize = 16;

/// What the creator of a stream is told.
pub struct CreatedStream {
    pub stream_id: String,
    pub stream_token: String,
    pub view_token: String,
    pub server: String,
    pub player: String,
    pub ingest_ws_path: String,
    pub view_path: String,
    pub player_path: Option<String>,
}

/// The path at which a client pushes a stream's data.
pub open spec fn ingest_path_of(stream_id: Seq<char>) -> Seq<char> {
    "/ingest/"@ + stream_id
}

/// The path at which a viewer watches a stream.
pub open spec fn view_path_of(stream_id: Seq<char>, view_token: Seq<char>) -> Seq<char> {
    "/stream/"@ + stream_id + "?vtok="@ + view_token
}

/// The path at which the public watches a player, where the server is known.
pub open spec fn player_path_of(server: Seq<char>, player: Seq<char>) -> Option<Seq<char>> {
    if server.len() == 0 {
        None
    } else {
        Some("/player/"@ + server + "/"@ + player)
    }
}

/// The path at which a viewer watches a stream.
pub fn view_path(stream_id: &str, view_token: &str) -> (r: String)
    ensures
        r@ == view_path_of(stream_id@, view_token@),
{
    let mut s: String = "/stream/".to_owned();
    s.append(stream_id);
    s.append("?vtok=");
    s.append(view_token);
    s
}

/// A new stream for `player` on `server`, from three random tokens: the first
/// gives its public identifier, the others are its secrets.
pub fn create_stream(
    id_source: &str,
    stream_token: String,
    view_token: String,
    server: String,
    player: String,
) -> (r: CreatedStream)
    requires
        id_source@.len() >= STREAM_ID_CHARS,
    ensures
        r.stream_id@ == id_source@.take(STREAM_ID_CHARS as int),
        r.stream_token == stream_token,
        r.view_token == view_token,
        r.server == server,
        r.player == player,
        r.ingest_ws_path@ == ingest_path_of(r.stream_id@),
        r.view_path@ == view_path_of(r.stream_id@, view_token@),
        text::opt_view(r.player_path) == player_path_of(server@, player@),
{
    let chars = text::chars_of(id_source);
    let stream_id = text::string_of_range(&chars, 0, STREAM_ID_CHARS);
    let mut ingest_ws_path: String = "/ingest/".to_owned();
    ingest_ws_path.append(stream_id.as_str());
    let path = view_path(stream_id.as_str(), view_token.as_str());
    let player_path: Option<String> = if server.as_str().is_empty() {
        None
    } else {
        let mut p: String = "/player/".to_owned();
        p.append(server.as_str());
        p.append("/");
        p.append(player.as_str());
        Some(p)
    };
    CreatedStream {
        stream_id,
        stream_token,
        view_token,
        server,
        player,
        ingest_ws_path,
        view_path: path,
        player_path,
    }
}

/// The registry entry of a stream that was created.
pub fn created_entry<H>(created: &CreatedStream, handle: H) -> (r: StreamEntry<H>)
    ensures
        r == (StreamEntry {
            stream_id: created.stream_id,
            stream_token: created.stream_token,
            view_token: created.view_token,
            server: created.server,
            player_name: created.player,
            client_connected: false,
            handle,
        }),
{
    StreamEntry::new(
        created.stream_id.clone(),
        created.stream_token.clone(),
        created.view_token.clone(),
        created.server.clone(),
        created.player.clone(),
        handle,
    )
}

/// A setting that holds a number: the number that the text denotes, if it
/// denotes one that is at most `max`, else `default`.
pub fn number_setting(value: &Option<String>, max: u64, default: u64) -> (r: u64)
    ensures
        r == match text::opt_view(*value) {
            Some(s) => match text::unsigned_value(s, max as nat) {
                Some(n) => n as u64,
                None => default,
            },
            None => default,
        },
{
    match value {
        Some(s) => match text::parse_unsigned(s.as_str(), max) {
            Some(n) => n,
            None => default,
        },
        None => default,
    }
}

/// How many requests one address may make in a window, how long the window is,
/// and how long an address that made more is banned, in seconds.
#[derive(Clone, Copy, PartialEq, Eq, Structural)]
pub struct RateLimits {
    pub max_requests: u32,
    pub window_secs: u64,
    pub ban_secs: u64,
}

/// The limits that the settings give: 100 requests in 10 seconds and a ban of
/// 300 seconds, where a setting is missing or no number.
pub fn rate_limits(max: &Option<String>, window: &Option<String>, ban: &Option<String>) -> (r:
    RateLimits)
    ensures
        r.max_requests as int == setting_value(text::opt_view(*max), u32::MAX as nat, 100),
        r.window_secs as int == setting_value(text::opt_view(*window), u64::MAX as nat, 10),
        r.ban_secs as int == setting_value(text::opt_view(*ban), u64::MAX as nat, 300),
{
    RateLimits {
        max_requests: number_setting(max, u32::MAX as u64, 100) as u32,
        window_secs: number_setting(window, u64::MAX, 10),
        ban_secs: number_setting(ban, u64::MAX, 300),
    }
}

/// The number that a setting denotes, or the default.
pub open spec fn setting_value(value: Option<Seq<char>>, max: nat, default: int) -> int {
    match value {
        Some(s) => match text::unsigned_value(s, max) {
            Some(n) => n as int,
            None => default,
        },
        None => default,
    }
}

// ── Laws ────────────────────────────────────────────────────────────────────

/// A stream that was created and added is opened by the view token and the
/// client's token that its creator was told, and by no other.
pub proof fn created_stream_opens<H>(
    before: StreamRegistry<H>,
    after: StreamRegistry<H>,
    entry: StreamEntry<H>,
    vtok: Option<Seq<char>>,
)
    requires
        after.streams() == before.streams().insert(streams::one(entry.stream_id@), entry),
    ensures
        view_token_opens(after, entry.stream_id@, vtok) <==> vtok == Some(entry.view_token@),
{
}

} // verus!
