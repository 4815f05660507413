//! The streams that the server hosts, found by their identifier, by the token
//! of the client that feeds them, or by the player whom they follow.
use vstd::prelude::*;

use crate::maps;
use crate::maps::TextMap;
use crate::text;

verus! {

/// A single player's log stream. `handle` is what the server keeps beside it
/// while it runs: its journal and the channel to its viewers.
pub struct StreamEntry<H> {
    /// Public identifier used in URLs: `/stream/<stream_id>`.
    pub stream_id: String,
    /// Secret token the client presents to push data (Bearer auth).
    pub stream_token: String,
    /// Secret token viewers must supply in the query string to watch the stream.
    pub view_token: String,
    /// EverQuest server name (e.g. "Bristlebane").
    pub server: String,
    /// EverQuest character name reported by the client on stream creation.
    pub player_name: String,
    /// True while a client is connected and pushes data.
    pub client_connected: bool,
    pub handle: H,
}

impl<H> StreamEntry<H> {
    /// A stream to which no client is connected yet.
    pub fn new(
        stream_id: String,
        stream_token: String,
        view_token: String,
        server: String,
        player_name: String,
        handle: H,
    ) -> (r: Self)
        ensures
            r == (StreamEntry {
                stream_id,
                stream_token,
                view_token,
                server,
                player_name,
                client_connected: false,
                handle,
            }),
    {
        StreamEntry {
            stream_id,
            stream_token,
            view_token,
            server,
            player_name,
            client_connected: false,
            handle,
        }
    }

    /// The identity under which the public finds the stream.
    pub open spec fn identity(&self) -> Seq<Seq<char>> {
        identity_of(self.server@, self.player_name@)
    }
}

/// The identity of a player on a server: both names without regard to case.
pub open spec fn identity_of(server: Seq<char>, player: Seq<char>) -> Seq<Seq<char>> {
    seq![text::lowercase(server), text::lowercase(player)]
}

/// What the admin panel shows of a stream.
pub struct AdminStreamInfo {
    pub stream_id: String,
    pub server: String,
    pub player_name: String,
    pub view_token: String,
    pub connected: bool,
}

/// The streams, with an index by token and an index by player. Where two
/// streams follow the same player, the index leads to the one that came last.
pub struct StreamRegistry<H> {
    by_id: TextMap<String, StreamEntry<H>>,
    token_to_id: TextMap<String, String>,
    name_to_id: TextMap<(String, String), String>,
}

/// The key of a single text.
pub open spec fn one(s: Seq<char>) -> Seq<Seq<char>> {
    seq![s]
}

impl<H> StreamRegistry<H> {
    /// The streams by identifier.
    pub closed spec fn streams(&self) -> Map<Seq<Seq<char>>, StreamEntry<H>> {
        self.by_id@
    }

    /// The identifiers by token.
    pub closed spec fn tokens(&self) -> Map<Seq<Seq<char>>, String> {
        self.token_to_id@
    }

    /// The identifiers by player.
    pub closed spec fn names(&self) -> Map<Seq<Seq<char>>, String> {
        self.name_to_id@
    }

    /// The streams, each with its identifier, in the order in which they came.
    pub closed spec fn listed(&self) -> Seq<(String, StreamEntry<H>)> {
        self.by_id.entries()
    }

    /// Both indexes lead to streams that have the token or the identity that
    /// they are found by, and every stream stands under its own identifier.
    pub open spec fn consistent(&self) -> bool {
        &&& forall|k: Seq<Seq<char>>| #[trigger]
            self.streams().dom().contains(k) ==> k == one(self.streams()[k].stream_id@)
        &&& forall|t: Seq<Seq<char>>| #[trigger]
            self.tokens().dom().contains(t) ==> {
                &&& self.streams().dom().contains(one(self.tokens()[t]@))
                &&& one(self.streams()[one(self.tokens()[t]@)].stream_token@) == t
            }
        &&& forall|n: Seq<Seq<char>>| #[trigger]
            self.names().dom().contains(n) ==> {
                &&& self.streams().dom().contains(one(self.names()[n]@))
                &&& self.streams()[one(self.names()[n]@)].identity() == n
            }
    }

    pub fn new() -> (r: Self)
        ensures
            r.streams() == Map::<Seq<Seq<char>>, StreamEntry<H>>::empty(),
            r.tokens() == Map::<Seq<Seq<char>>, String>::empty(),
            r.names() == Map::<Seq<Seq<char>>, String>::empty(),
            r.consistent(),
    {
        StreamRegistry {
            by_id: TextMap::new(),
            token_to_id: TextMap::new(),
            name_to_id: TextMap::new(),
        }
    }

    /// Adds a stream. The player index leads to it from now on, if it names a
    /// server.
    pub fn insert(&mut self, entry: StreamEntry<H>)
        ensures
            final(self).streams() == old(self).streams().insert(one(entry.stream_id@), entry),
            final(self).tokens() == old(self).tokens().insert(
                one(entry.stream_token@),
                entry.stream_id,
            ),
            final(self).names() == if entry.server@.len() == 0 {
                old(self).names()
            } else {
                old(self).names().insert(entry.identity(), entry.stream_id)
            },
    {
        if !entry.server.as_str().is_empty() {
            let key: (String, String) = (
                text::to_lowercase(entry.server.as_str()),
                text::to_lowercase(entry.player_name.as_str()),
            );
            self.name_to_id.insert(key, entry.stream_id.clone());
        }
        self.token_to_id.insert(entry.stream_token.clone(), entry.stream_id.clone());
        self.by_id.insert(entry.stream_id.clone(), entry);
    }

    /// Look up the stream_id for a public player identity (case-insensitive).
    pub fn find_id_by_player(&self, server: &str, name: &str) -> (r: Option<String>)
        ensures
            r == if self.names().dom().contains(identity_of(server@, name@)) {
                Some(self.names()[identity_of(server@, name@)])
            } else {
                None
            },
    {
        let key: (String, String) = (text::to_lowercase(server), text::to_lowercase(name));
        match self.name_to_id.get(&key) {
            Some(id) => Some(id.clone()),
            None => None,
        }
    }

    /// The stream with the identifier `stream_id`.
    pub fn get(&self, stream_id: &str) -> (r: Option<&StreamEntry<H>>)
        ensures
            r is Some == self.streams().dom().contains(one(stream_id@)),
            r is Some ==> *r->0 == self.streams()[one(stream_id@)],
    {
        self.by_id.get(&stream_id.to_owned())
    }

    /// The stream with the identifier `stream_id`, to be changed in place.
    pub fn get_mut(&mut self, stream_id: &str) -> (r: Option<&mut StreamEntry<H>>)
        ensures
            final(self).tokens() == old(self).tokens(),
            final(self).names() == old(self).names(),
            match r {
                Some(entry) => {
                    &&& old(self).streams().dom().contains(one(stream_id@))
                    &&& *entry == old(self).streams()[one(stream_id@)]
                    &&& final(self).streams() == old(self).streams().insert(
                        one(stream_id@),
                        *final(entry),
                    )
                },
                None => {
                    &&& !old(self).streams().dom().contains(one(stream_id@))
                    &&& final(self).streams() == old(self).streams()
                },
            },
    {
        self.by_id.get_mut(&stream_id.to_owned())
    }

    /// Look up the stream_id for a client's token.
    pub fn find_id_by_token(&self, token: &str) -> (r: Option<String>)
        ensures
            r == if self.tokens().dom().contains(one(token@)) {
                Some(self.tokens()[one(token@)])
            } else {
                None
            },
    {
        match self.token_to_id.get(&token.to_owned()) {
            Some(id) => Some(id.clone()),
            None => None,
        }
    }

    /// Takes a stream out, with its token. Its player's index entry goes too,
    /// if it still leads to this stream.
    pub fn remove(&mut self, stream_id: &str) -> (r: Option<StreamEntry<H>>)
        ensures
            final(self).streams() == old(self).streams().remove(one(stream_id@)),
            match r {
                None => {
                    &&& !old(self).streams().dom().contains(one(stream_id@))
                    &&& final(self).tokens() == old(self).tokens()
                    &&& final(self).names() == old(self).names()
                },
                Some(entry) => {
                    &&& old(self).streams().dom().contains(one(stream_id@))
                    &&& entry == old(self).streams()[one(stream_id@)]
                    &&& final(self).tokens() == old(self).tokens().remove(one(entry.stream_token@))
                    &&& final(self).names() == if old(self).names().dom().contains(entry.identity())
                        && old(self).names()[entry.identity()]@ == stream_id@ {
                        old(self).names().remove(entry.identity())
                    } else {
                        old(self).names()
                    }
                },
            },
    {
        match self.by_id.remove(&stream_id.to_owned()) {
            Some(entry) => {
                self.token_to_id.remove(&entry.stream_token);
                let key: (String, String) = (
                    text::to_lowercase(entry.server.as_str()),
                    text::to_lowercase(entry.player_name.as_str()),
                );
                let active: bool = match self.name_to_id.get(&key) {
                    Some(id) => text::same(id.as_str(), stream_id),
                    None => false,
                };
                if active {
                    self.name_to_id.remove(&key);
                }
                Some(entry)
            },
            None => None,
        }
    }

    /// Notes whether a client is connected to a stream; returns whether there
    /// is such a stream.
    pub fn set_connected(&mut self, stream_id: &str, connected: bool) -> (r: bool)
        ensures
            r == old(self).streams().dom().contains(one(stream_id@)),
            final(self).tokens() == old(self).tokens(),
            final(self).names() == old(self).names(),
            final(self).streams() == if r {
                old(self).streams().insert(
                    one(stream_id@),
                    StreamEntry {
                        client_connected: connected,
                        ..old(self).streams()[one(stream_id@)]
                    },
                )
            } else {
                old(self).streams()
            },
    {
        match self.get_mut(stream_id) {
            Some(entry) => {
                entry.client_connected = connected;
                true
            },
            None => false,
        }
    }

    /// Every stream's identifier, player and whether its client is connected.
    pub fn list(&self) -> (r: Vec<(String, String, bool)>)
        ensures
            self.streams() == maps::map_of(self.listed()),
            maps::distinct_keys(self.listed()),
            r@.len() == self.listed().len(),
            forall|i: int|
                0 <= i < r@.len() ==> {
                    let e = self.listed()[i].1;
                    #[trigger] r@[i] == (e.stream_id, e.player_name, e.client_connected)
                },
    {
        let mut out: Vec<(String, String, bool)> = Vec::new();
        let n: usize = self.by_id.len();
        let mut i: usize = 0;
        while i < n
            invariant
                n == self.by_id.entries().len(),
                i <= n,
                out@.len() == i,
                forall|k: int|
                    0 <= k < i ==> {
                        let e = self.by_id.entries()[k].1;
                        #[trigger] out@[k] == (e.stream_id, e.player_name, e.client_connected)
                    },
            decreases n - i,
        {
            let e = self.by_id.entry_at(i).1;
            out.push((e.stream_id.clone(), e.player_name.clone(), e.client_connected));
            i += 1;
        }
        out
    }

    /// What the admin panel shows of every stream.
    pub fn list_admin(&self) -> (r: Vec<AdminStreamInfo>)
        ensures
            self.streams() == maps::map_of(self.listed()),
            maps::distinct_keys(self.listed()),
            r@.len() == self.listed().len(),
            forall|i: int|
                0 <= i < r@.len() ==> {
                    let e = self.listed()[i].1;
                    #[trigger] r@[i] == (AdminStreamInfo {
                        stream_id: e.stream_id,
                        server: e.server,
                        player_name: e.player_name,
                        view_token: e.view_token,
                        connected: e.client_connected,
                    })
                },
    {
        let mut out: Vec<AdminStreamInfo> = Vec::new();
        let n: usize = self.by_id.len();
        let mut i: usize = 0;
        while i < n
            invariant
                n == self.by_id.entries().len(),
                i <= n,
                out@.len() == i,
                forall|k: int|
                    0 <= k < i ==> {
                        let e = self.by_id.entries()[k].1;
                        #[trigger] out@[k] == (AdminStreamInfo {
                            stream_id: e.stream_id,
                            server: e.server,
                            player_name: e.player_name,
                            view_token: e.view_token,
                            connected: e.client_connected,
                        })
                    },
            decreases n - i,
        {
            let e = self.by_id.entry_at(i).1;
            out.push(
                AdminStreamInfo {
                    stream_id: e.stream_id.clone(),
                    server: e.server.clone(),
                    player_name: e.player_name.clone(),
                    view_token: e.view_token.clone(),
                    connected: e.client_connected,
                },
            );
            i += 1;
        }
        out
    }
}

/// Two single texts are the same key only if they are the same text.
proof fn one_is_injective(a: Seq<char>, b: Seq<char>)
    ensures
        one(a) == one(b) ==> a == b,
{
    assert(one(a)[0] == a);
    assert(one(b)[0] == b);
}

/// Adding a stream under an identifier and a token that are not in use keeps
/// the indexes right.
pub proof fn insert_keeps_consistent<H>(
    before: StreamRegistry<H>,
    after: StreamRegistry<H>,
    entry: StreamEntry<H>,
)
    requires
        before.consistent(),
        !before.streams().dom().contains(one(entry.stream_id@)),
        !before.tokens().dom().contains(one(entry.stream_token@)),
        after.streams() == before.streams().insert(one(entry.stream_id@), entry),
        after.tokens() == before.tokens().insert(one(entry.stream_token@), entry.stream_id),
        after.names() == (if entry.server@.len() == 0 {
            before.names()
        } else {
            before.names().insert(entry.identity(), entry.stream_id)
        }),
    ensures
        after.consistent(),
{
    assert forall|t: Seq<Seq<char>>| #[trigger] after.tokens().dom().contains(t) implies {
        &&& after.streams().dom().contains(one(after.tokens()[t]@))
        &&& one(after.streams()[one(after.tokens()[t]@)].stream_token@) == t
    } by {
        if t != one(entry.stream_token@) {
            assert(before.tokens().dom().contains(t));
        }
    }
    assert forall|n: Seq<Seq<char>>| #[trigger] after.names().dom().contains(n) implies {
        &&& after.streams().dom().contains(one(after.names()[n]@))
        &&& after.streams()[one(after.names()[n]@)].identity() == n
    } by {
        if entry.server@.len() == 0 || n != entry.identity() {
            assert(before.names().dom().contains(n));
        }
    }
    assert forall|k: Seq<Seq<char>>| #[trigger] after.streams().dom().contains(k) implies k == one(
        after.streams()[k].stream_id@,
    ) by {
        if k != one(entry.stream_id@) {
            assert(before.streams().dom().contains(k));
        }
    }
}

/// Taking a stream out keeps the indexes right, and no index leads to it any
/// more.
pub proof fn remove_keeps_consistent<H>(
    before: StreamRegistry<H>,
    after: StreamRegistry<H>,
    stream_id: Seq<char>,
)
    requires
        before.consistent(),
        before.streams().dom().contains(one(stream_id)),
        after.streams() == before.streams().remove(one(stream_id)),
        after.tokens() == before.tokens().remove(
            one(before.streams()[one(stream_id)].stream_token@),
        ),
        after.names() == ({
            let identity = before.streams()[one(stream_id)].identity();
            if before.names().dom().contains(identity) && before.names()[identity]@ == stream_id {
                before.names().remove(identity)
            } else {
                before.names()
            }
        }),
    ensures
        after.consistent(),
        forall|t: Seq<Seq<char>>| #[trigger]
            after.tokens().dom().contains(t) ==> after.tokens()[t]@ != stream_id,
        forall|n: Seq<Seq<char>>| #[trigger]
            after.names().dom().contains(n) ==> after.names()[n]@ != stream_id,
{
    assert forall|t: Seq<Seq<char>>| #[trigger] after.tokens().dom().contains(t) implies {
        &&& after.streams().dom().contains(one(after.tokens()[t]@))
        &&& one(after.streams()[one(after.tokens()[t]@)].stream_token@) == t
        &&& after.tokens()[t]@ != stream_id
    } by {
        assert(before.tokens().dom().contains(t));
        one_is_injective(before.tokens()[t]@, stream_id);
    }
    assert forall|n: Seq<Seq<char>>| #[trigger] after.names().dom().contains(n) implies {
        &&& after.streams().dom().contains(one(after.names()[n]@))
        &&& after.streams()[one(after.names()[n]@)].identity() == n
        &&& after.names()[n]@ != stream_id
    } by {
        assert(before.names().dom().contains(n));
        one_is_injective(before.names()[n]@, stream_id);
    }
    assert forall|k: Seq<Seq<char>>| #[trigger] after.streams().dom().contains(k) implies k == one(
        after.streams()[k].stream_id@,
    ) by {
        assert(before.streams().dom().contains(k));
    }
}

/// A player is the same on a server however either name is written, and another
/// on another server.
pub proof fn identities_disregard_case(
    a: Seq<char>,
    b: Seq<char>,
    c: Seq<char>,
    d: Seq<char>,
)
    ensures
        identity_of(a, b) == identity_of(c, d) <==> text::lowercase(a) == text::lowercase(c)
            && text::lowercase(b) == text::lowercase(d),
{
    let x = identity_of(a, b);
    let y = identity_of(c, d);
    assert(x[0] == text::lowercase(a) && x[1] == text::lowercase(b));
    assert(y[0] == text::lowercase(c) && y[1] == text::lowercase(d));
}

} // verus!
