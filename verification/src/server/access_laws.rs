//! What holds of access to the server, whatever a request carries.
use vstd::prelude::*;

use crate::server::access::bearer_of;
use crate::server::access::best_address;
use crate::server::access::player_path_of;
use crate::server::access::setting_value;
use crate::server::access::view_token_opens;
use crate::server::streams;
use crate::server::streams::StreamRegistry;
use crate::text;
use crate::text_laws;

verus! {

/// The token of a request is all that follows `Bearer` and a space; a header that
/// begins otherwise carries none.
pub proof fn tokens_follow_the_scheme(token: Seq<char>, other: Seq<char>)
    ensures
        bearer_of(Some("Bearer "@ + token)) == Some(token),
        !other.is_prefix_of("Bearer "@) && !"Bearer "@.is_prefix_of(other) ==> bearer_of(Some(other))
            is None,
        bearer_of(None) is None,
{
    let p = "Bearer "@;
    let s = p + token;
    assert(s.subrange(0, p.len() as int) =~= p);
    assert(text::occurs_at(s, p, 0));
    assert(s.skip(p.len() as int) =~= token);
    if text::occurs_at(other, p, 0) {
        assert(p =~= other.subrange(0, p.len() as int));
        assert(p.is_prefix_of(other));
    }
}

/// Behind a proxy the client's address is the leftmost one that the proxy lists,
/// however many follow it and whatever white space is around it. Where the list
/// has none the other header counts, and without either the connection's own.
pub proof fn the_leftmost_address_is_the_clients(
    before: Seq<char>,
    client: Seq<char>,
    after: Seq<char>,
    rest: Seq<char>,
    real_ip: Option<Seq<char>>,
    peer: Seq<char>,
)
    requires
        text_laws::is_blank(before),
        text_laws::is_blank(after),
        client.len() > 0,
        !text::is_white_space(client.first()),
        !text::is_white_space(client.last()),
        !text::has_char(before + client + after, ','),
    ensures
        best_address(Some(before + client + after), real_ip, peer) == client,
        best_address(Some((before + client + after) + seq![','] + rest), real_ip, peer) == client,
        best_address(None, Some(before + client + after), peer) == client,
        best_address(None, None, peer) == peer,
        best_address(Some(Seq::empty()), None, peer) == peer,
{
    text_laws::white_space_is_taken_off(before, client, after);
    text_laws::texts_split_at_the_separator(before + client + after, ',', rest);
    let none = Seq::<char>::empty();
    assert(text::pieces(none, ',') == seq![none]);
    assert(text::trimmed(none) =~= none) by {
        text_laws::white_space_is_taken_off(none, none, none);
        assert(none + none + none =~= none);
    }
}

/// A setting that is written as a number within its range is that number; one that
/// is missing or holds anything else than digits is the default.
pub proof fn settings_are_numbers(n: nat, max: nat, default: int, s: Seq<char>, k: int)
    requires
        n <= max,
        0 < k < s.len(),
        !('0' <= s[k] <= '9'),
    ensures
        setting_value(Some(text::decimal(n)), max, default) == n,
        setting_value(None, max, default) == default,
        setting_value(Some(s), max, default) == default,
{
    text::decimal_read_back(n, max);
    let d = text::unsigned_digits(s);
    if s[0] == '+' {
        assert(d[k - 1] == s[k]);
    } else {
        assert(d[k] == s[k]);
    }
}

/// The page of a player is known where the server is, and names both, the server
/// first.
pub proof fn players_have_a_page_on_their_server(server: Seq<char>, player: Seq<char>)
    ensures
        player_path_of(server, player) is Some <==> server.len() > 0,
        server.len() > 0 ==> player_path_of(server, player)->0 == "/player/"@ + (server + "/"@
            + player),
{
    if server.len() > 0 {
        assert("/player/"@ + server + "/"@ + player =~= "/player/"@ + (server + "/"@ + player));
    }
}

/// A view token opens its own stream and no other: where two streams have
/// different tokens, no token opens both, and without a token none opens.
pub proof fn tokens_open_their_own_stream<H>(
    reg: StreamRegistry<H>,
    a: Seq<char>,
    b: Seq<char>,
    vtok: Option<Seq<char>>,
)
    requires
        reg.streams().dom().contains(streams::one(a)),
        reg.streams().dom().contains(streams::one(b)),
        reg.streams()[streams::one(a)].view_token@ != reg.streams()[streams::one(b)].view_token@,
    ensures
        !(view_token_opens(reg, a, vtok) && view_token_opens(reg, b, vtok)),
        !view_token_opens(reg, a, None),
        view_token_opens(reg, a, Some(reg.streams()[streams::one(a)].view_token@)),
{
}

} // verus!
