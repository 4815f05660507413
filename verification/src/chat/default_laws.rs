//! What holds of the phrases that are known without a phrasebook file: there are
//! some for every kind of trigger, and their fragments are all known.
use vstd::prelude::*;

use crate::chat::defaults::{FragmentRow, PhraseRow, DEFAULT_FRAGMENTS, DEFAULT_PHRASES};
use crate::chat::engine;
use crate::chat::phrasebook;
use crate::chat::phrasebook::PhraseDb;
use crate::chat::trigger::ChatTrigger;
use crate::text;

verus! {

// ── Tables ──────────────────────────────────────────────────────────────────

/// A row's pool holds a phrase.
proof fn rows_fill_their_pool(rows: Seq<PhraseRow>, i: int)
    requires
        0 <= i < rows.len(),
    ensures
        phrasebook::table_phrases(rows, phrasebook::row_key(rows[i])).len() > 0,
    decreases rows.len(),
{
    if i < rows.len() - 1 {
        rows_fill_their_pool(rows.drop_last(), i);
    }
}

/// A row's fragment has words.
proof fn rows_fill_their_fragment(rows: Seq<FragmentRow>, i: int)
    requires
        0 <= i < rows.len(),
    ensures
        phrasebook::table_fragments(rows, rows[i].0@).len() > 0,
    decreases rows.len(),
{
    if i < rows.len() - 1 {
        rows_fill_their_fragment(rows.drop_last(), i);
    }
}

/// The words of a fragment stand in the table.
proof fn words_stand_in_rows(rows: Seq<FragmentRow>, name: Seq<char>, k: int)
    requires
        0 <= k < phrasebook::table_fragments(rows, name).len(),
    ensures
        exists|j: int|
            0 <= j < rows.len() && (#[trigger] rows[j]).1@ == phrasebook::table_fragments(
                rows,
                name,
            )[k],
    decreases rows.len(),
{
    if rows.len() > 0 {
        let before = phrasebook::table_fragments(rows.drop_last(), name);
        if k < before.len() {
            words_stand_in_rows(rows.drop_last(), name, k);
            let j = choose|j: int|
                0 <= j < rows.len() - 1 && (#[trigger] rows.drop_last()[j]).1@ == before[k];
            assert(rows[j].1@ == before[k]);
        } else {
            assert(rows[rows.len() - 1] == rows.last());
        }
    }
}

// ── Templates ───────────────────────────────────────────────────────────────

/// A template without a dollar sign names no fragment.
proof fn plain_templates_are_one_chunk(s: Seq<char>)
    requires
        !text::has_char(s, '$'),
    ensures
        phrasebook::position(s, "{$"@) is None,
        phrasebook::chunks(s) == seq![(s, None::<Seq<char>>)],
        !phrasebook::leaves_open(s),
{
    reveal_strlit("{$");
    phrasebook::position_holds(s, "{$"@);
    if let Some(i) = phrasebook::position(s, "{$"@) {
        assert(s.subrange(i, i + 2)[1] == s[i + 1]);
        assert(s[i + 1] == '$');
    }
}

/// Where a text without a dollar sign is followed by a mark, the mark stands
/// where the text ends.
proof fn marks_stand_behind_texts(a: Seq<char>, rest: Seq<char>)
    requires
        !text::has_char(a, '$'),
    ensures
        phrasebook::position(a + "{$"@ + rest, "{$"@) == Some(a.len() as int),
    decreases a.len(),
{
    reveal_strlit("{$");
    let s = a + "{$"@ + rest;
    if a.len() == 0 {
        assert(s.subrange(0, 2) =~= "{$"@);
    } else {
        if text::occurs_at(s, "{$"@, 0) {
            assert(s.subrange(0, 2)[1] == s[1]);
            assert(s[1] == '$');
            if a.len() > 1 {
                assert(a[1] == '$');
            } else {
                assert(s[1] == "{$"@[0]);
            }
        }
        let b = a.skip(1);
        assert forall|i: int| 0 <= i < b.len() implies b[i] != '$' by {
            assert(a[i + 1] == b[i]);
        }
        marks_stand_behind_texts(b, rest);
        assert(s.skip(1) =~= b + "{$"@ + rest);
    }
}

/// A name without a closing brace ends at the first one.
proof fn names_end_at_the_brace(name: Seq<char>, rest: Seq<char>)
    requires
        !text::has_char(name, '}'),
    ensures
        phrasebook::position(name + "}"@ + rest, "}"@) == Some(name.len() as int),
    decreases name.len(),
{
    reveal_strlit("}");
    let s = name + "}"@ + rest;
    if name.len() == 0 {
        assert(s.subrange(0, 1) =~= "}"@);
    } else {
        if text::occurs_at(s, "}"@, 0) {
            assert(s.subrange(0, 1)[0] == s[0]);
            assert(name[0] == '}');
        }
        let b = name.skip(1);
        assert forall|i: int| 0 <= i < b.len() implies b[i] != '}' by {
            assert(name[i + 1] == b[i]);
        }
        names_end_at_the_brace(b, rest);
        assert(s.skip(1) =~= b + "}"@ + rest);
    }
}

/// A template that begins with a text and a fragment is cut behind the fragment.
proof fn fragments_are_cut(a: Seq<char>, name: Seq<char>, rest: Seq<char>)
    requires
        !text::has_char(a, '$'),
        !text::has_char(name, '}'),
    ensures
        phrasebook::chunks(a + "{$"@ + (name + "}"@ + rest)) == seq![(a, Some(name))]
            + phrasebook::chunks(rest),
        phrasebook::leaves_open(a + "{$"@ + (name + "}"@ + rest)) == phrasebook::leaves_open(rest),
{
    reveal_strlit("{$");
    reveal_strlit("}");
    let tail = name + "}"@ + rest;
    let s = a + "{$"@ + tail;
    marks_stand_behind_texts(a, tail);
    names_end_at_the_brace(name, rest);
    let i = a.len() as int;
    assert(s.skip(i + 2) =~= tail);
    assert(s.take(i) =~= a);
    assert(tail.take(name.len() as int) =~= name);
    assert(tail.skip(name.len() as int + 1) =~= rest);
}

// ── What is known ───────────────────────────────────────────────────────────

/// Whether a chunk can be said: its text has no dollar sign, and its fragment is
/// known and has words, none with a dollar sign.
pub open spec fn can_be_said(db: PhraseDb, c: (Seq<char>, Option<Seq<char>>)) -> bool {
    &&& !text::has_char(c.0, '$')
    &&& c.1 matches Some(name) ==> {
        &&& db.fragment(name) is Some
        &&& db.fragment(name)->0.len() > 0
        &&& forall|k: int|
            0 <= k < db.fragment(name)->0.len() ==> !text::has_char(
                #[trigger] db.fragment(name)->0[k],
                '$',
            )
    }
}

/// Whether a template can be said: its marks are closed, and each of its chunks
/// can be said.
pub open spec fn is_sayable(db: PhraseDb, s: Seq<char>) -> bool {
    &&& !phrasebook::leaves_open(s)
    &&& forall|k: int|
        0 <= k < phrasebook::chunks(s).len() ==> can_be_said(db, #[trigger] phrasebook::chunks(s)[k])
}

proof fn plain_templates_are_sayable(db: PhraseDb, s: Seq<char>)
    requires
        !text::has_char(s, '$'),
    ensures
        is_sayable(db, s),
{
    plain_templates_are_one_chunk(s);
}

proof fn fragments_are_sayable(
    db: PhraseDb,
    s: Seq<char>,
    a: Seq<char>,
    name: Seq<char>,
    rest: Seq<char>,
)
    requires
        s == a + "{$"@ + (name + "}"@ + rest),
        !text::has_char(name, '}'),
        can_be_said(db, (a, Some(name))),
        is_sayable(db, rest),
    ensures
        is_sayable(db, s),
{
    fragments_are_cut(a, name, rest);
    let c = phrasebook::chunks(s);
    assert forall|k: int| 0 <= k < c.len() implies can_be_said(db, #[trigger] c[k]) by {
        if k > 0 {
            assert(c[k] == phrasebook::chunks(rest)[k - 1]);
        }
    }
}

/// No word of the fragments has a dollar sign.
proof fn words_have_no_dollar(j: int)
    requires
        0 <= j < DEFAULT_FRAGMENTS@.len(),
    ensures
        !text::has_char(DEFAULT_FRAGMENTS@[j].1@, '$'),
{
    reveal_strlit("lol");
    reveal_strlit("omg");
    reveal_strlit("haha");
    reveal_strlit("wtf");
    reveal_strlit("dude");
    reveal_strlit("geez");
    reveal_strlit("holy");
    reveal_strlit("sheesh");
    reveal_strlit("ez");
    reveal_strlit("easy");
    reveal_strlit("clean");
    reveal_strlit("smooth");
    reveal_strlit("no sweat");
    reveal_strlit("effortless");
    reveal_strlit("oof");
    reveal_strlit("rough");
    reveal_strlit("rip");
    reveal_strlit("yikes");
    reveal_strlit("brutal");
    reveal_strlit("ouch");
    reveal_strlit("ugly");
    reveal_strlit("let's go");
    reveal_strlit("we're cooking");
    reveal_strlit("no stopping us");
    reveal_strlit("on a roll");
    reveal_strlit("hitting with eyes closed");
    reveal_strlit("forgot how to make contact");
    reveal_strlit("swinging at ghosts");
    reveal_strlit("might as well be afk");
    reveal_strlit("can't buy a hit");
    assert(DEFAULT_FRAGMENTS@[0].1 == "lol");
    assert(DEFAULT_FRAGMENTS@[1].1 == "omg");
    assert(DEFAULT_FRAGMENTS@[2].1 == "haha");
    assert(DEFAULT_FRAGMENTS@[3].1 == "wtf");
    assert(DEFAULT_FRAGMENTS@[4].1 == "dude");
    assert(DEFAULT_FRAGMENTS@[5].1 == "geez");
    assert(DEFAULT_FRAGMENTS@[6].1 == "holy");
    assert(DEFAULT_FRAGMENTS@[7].1 == "sheesh");
    assert(DEFAULT_FRAGMENTS@[8].1 == "ez");
    assert(DEFAULT_FRAGMENTS@[9].1 == "easy");
    assert(DEFAULT_FRAGMENTS@[10].1 == "clean");
    assert(DEFAULT_FRAGMENTS@[11].1 == "smooth");
    assert(DEFAULT_FRAGMENTS@[12].1 == "no sweat");
    assert(DEFAULT_FRAGMENTS@[13].1 == "effortless");
    assert(DEFAULT_FRAGMENTS@[14].1 == "oof");
    assert(DEFAULT_FRAGMENTS@[15].1 == "rough");
    assert(DEFAULT_FRAGMENTS@[16].1 == "rip");
    assert(DEFAULT_FRAGMENTS@[17].1 == "yikes");
    assert(DEFAULT_FRAGMENTS@[18].1 == "brutal");
    assert(DEFAULT_FRAGMENTS@[19].1 == "ouch");
    assert(DEFAULT_FRAGMENTS@[20].1 == "ugly");
    assert(DEFAULT_FRAGMENTS@[21].1 == "let's go");
    assert(DEFAULT_FRAGMENTS@[22].1 == "we're cooking");
    assert(DEFAULT_FRAGMENTS@[23].1 == "no stopping us");
    assert(DEFAULT_FRAGMENTS@[24].1 == "on a roll");
    assert(DEFAULT_FRAGMENTS@[25].1 == "hitting with eyes closed");
    assert(DEFAULT_FRAGMENTS@[26].1 == "forgot how to make contact");
    assert(DEFAULT_FRAGMENTS@[27].1 == "swinging at ghosts");
    assert(DEFAULT_FRAGMENTS@[28].1 == "might as well be afk");
    assert(DEFAULT_FRAGMENTS@[29].1 == "can't buy a hit");
}

/// A fragment with a row in the table is known and has words.
proof fn rows_make_fragments_known(db: PhraseDb, i: int)
    requires
        db.has_defaults(),
        0 <= i < DEFAULT_FRAGMENTS@.len(),
    ensures
        can_be_said(db, (Seq::empty(), Some(DEFAULT_FRAGMENTS@[i].0@))),
{
    let rows = DEFAULT_FRAGMENTS@;
    let name = rows[i].0@;
    rows_fill_their_fragment(rows, i);
    let words = phrasebook::table_fragments(rows, name);
    assert(db.fragment(name) == Some(words));
    assert forall|k: int| 0 <= k < words.len() implies !text::has_char(#[trigger] words[k], '$') by {
        words_stand_in_rows(rows, name, k);
        let j = choose|j: int| 0 <= j < rows.len() && (#[trigger] rows[j]).1@ == words[k];
        words_have_no_dollar(j);
    }
}

/// The fragments that the templates name are known.
proof fn named_fragments_are_known(db: PhraseDb)
    requires
        db.has_defaults(),
    ensures
        can_be_said(db, (Seq::empty(), Some("wow"@))),
        can_be_said(db, (Seq::empty(), Some("easy"@))),
        can_be_said(db, (Seq::empty(), Some("rough"@))),
        can_be_said(db, (Seq::empty(), Some("hype"@))),
        can_be_said(db, (Seq::empty(), Some("miss_jab"@))),
{
    assert(DEFAULT_FRAGMENTS@[0].0 == "wow");
    rows_make_fragments_known(db, 0);
    assert(DEFAULT_FRAGMENTS@[8].0 == "easy");
    rows_make_fragments_known(db, 8);
    assert(DEFAULT_FRAGMENTS@[14].0 == "rough");
    rows_make_fragments_known(db, 14);
    assert(DEFAULT_FRAGMENTS@[21].0 == "hype");
    rows_make_fragments_known(db, 21);
    assert(DEFAULT_FRAGMENTS@[25].0 == "miss_jab");
    rows_make_fragments_known(db, 25);
}

proof fn rows_from_0_are_plain(i: int)
    requires
        0 <= i < 31,
        i != 4,
        i != 15,
    ensures
        !text::has_char(DEFAULT_PHRASES@[i].3@, '$'),
{
    reveal_strlit("nice");
    reveal_strlit("gg");
    reveal_strlit("good fight");
    reveal_strlit("{mob} down");
    reveal_strlit("another one");
    reveal_strlit("next");
    reveal_strlit("on to the next");
    reveal_strlit("yeah buddy");
    reveal_strlit("hell yeah");
    reveal_strlit("got em");
    reveal_strlit("nice kill");
    reveal_strlit("told you we'd get it");
    reveal_strlit("{mob} had no chance");
    reveal_strlit("that's how you do it");
    reveal_strlit("YEAH BUDDY");
    reveal_strlit("lets go!!");
    reveal_strlit("we are COOKING");
    reveal_strlit("absolutely unstoppable right now");
    reveal_strlit("hell yeah brother");
    reveal_strlit("finally");
    reveal_strlit("took long enough");
    reveal_strlit("ok");
    reveal_strlit("bout time");
    reveal_strlit("good");
    reveal_strlit("next target");
    reveal_strlit("good, moving on");
    assert(DEFAULT_PHRASES@[0].3 == "nice");
    assert(DEFAULT_PHRASES@[1].3 == "gg");
    assert(DEFAULT_PHRASES@[2].3 == "good fight");
    assert(DEFAULT_PHRASES@[3].3 == "{mob} down");
    assert(DEFAULT_PHRASES@[5].3 == "another one");
    assert(DEFAULT_PHRASES@[6].3 == "next");
    assert(DEFAULT_PHRASES@[7].3 == "on to the next");
    assert(DEFAULT_PHRASES@[8].3 == "yeah buddy");
    assert(DEFAULT_PHRASES@[9].3 == "hell yeah");
    assert(DEFAULT_PHRASES@[10].3 == "got em");
    assert(DEFAULT_PHRASES@[11].3 == "nice kill");
    assert(DEFAULT_PHRASES@[12].3 == "told you we'd get it");
    assert(DEFAULT_PHRASES@[13].3 == "{mob} had no chance");
    assert(DEFAULT_PHRASES@[14].3 == "that's how you do it");
    assert(DEFAULT_PHRASES@[16].3 == "YEAH BUDDY");
    assert(DEFAULT_PHRASES@[17].3 == "lets go!!");
    assert(DEFAULT_PHRASES@[18].3 == "we are COOKING");
    assert(DEFAULT_PHRASES@[19].3 == "absolutely unstoppable right now");
    assert(DEFAULT_PHRASES@[20].3 == "hell yeah brother");
    assert(DEFAULT_PHRASES@[21].3 == "finally");
    assert(DEFAULT_PHRASES@[22].3 == "took long enough");
    assert(DEFAULT_PHRASES@[23].3 == "ok");
    assert(DEFAULT_PHRASES@[24].3 == "bout time");
    assert(DEFAULT_PHRASES@[25].3 == "nice");
    assert(DEFAULT_PHRASES@[26].3 == "gg");
    assert(DEFAULT_PHRASES@[27].3 == "{mob} down");
    assert(DEFAULT_PHRASES@[28].3 == "good");
    assert(DEFAULT_PHRASES@[29].3 == "next target");
    assert(DEFAULT_PHRASES@[30].3 == "good, moving on");
}

proof fn rows_from_31_are_plain(i: int)
    requires
        31 <= i < 62,
        i != 45,
        i != 58,
    ensures
        !text::has_char(DEFAULT_PHRASES@[i].3@, '$'),
{
    reveal_strlit("looting and moving");
    reveal_strlit("on to the next");
    reveal_strlit("gg");
    reveal_strlit("nice");
    reveal_strlit("good one");
    reveal_strlit("rip {player}");
    reveal_strlit("gg {player}");
    reveal_strlit("f");
    reveal_strlit("rip");
    reveal_strlit("ouch");
    reveal_strlit("rip {player} lol");
    reveal_strlit("oh no");
    reveal_strlit("f in chat for {player}");
    reveal_strlit("we'll get em next time {player}");
    reveal_strlit("come on guys");
    reveal_strlit("we gotta stop dying");
    reveal_strlit("that's on me, my bad");
    reveal_strlit("ugh");
    reveal_strlit("okay we need to tighten up");
    reveal_strlit("nice save {healer}");
    reveal_strlit("good heal {healer}");
    reveal_strlit("whew, close one");
    reveal_strlit("{target} living on the edge");
    reveal_strlit("jesus {target}");
    reveal_strlit("nearly lost you there {target}");
    reveal_strlit("{healer} is carrying this group");
    assert(DEFAULT_PHRASES@[31].3 == "looting and moving");
    assert(DEFAULT_PHRASES@[32].3 == "on to the next");
    assert(DEFAULT_PHRASES@[33].3 == "gg");
    assert(DEFAULT_PHRASES@[34].3 == "nice");
    assert(DEFAULT_PHRASES@[35].3 == "good one");
    assert(DEFAULT_PHRASES@[36].3 == "rip {player}");
    assert(DEFAULT_PHRASES@[37].3 == "gg {player}");
    assert(DEFAULT_PHRASES@[38].3 == "f");
    assert(DEFAULT_PHRASES@[39].3 == "rip");
    assert(DEFAULT_PHRASES@[40].3 == "ouch");
    assert(DEFAULT_PHRASES@[41].3 == "rip {player} lol");
    assert(DEFAULT_PHRASES@[42].3 == "oh no");
    assert(DEFAULT_PHRASES@[43].3 == "f in chat for {player}");
    assert(DEFAULT_PHRASES@[44].3 == "we'll get em next time {player}");
    assert(DEFAULT_PHRASES@[46].3 == "come on guys");
    assert(DEFAULT_PHRASES@[47].3 == "we gotta stop dying");
    assert(DEFAULT_PHRASES@[48].3 == "that's on me, my bad");
    assert(DEFAULT_PHRASES@[49].3 == "ugh");
    assert(DEFAULT_PHRASES@[50].3 == "okay we need to tighten up");
    assert(DEFAULT_PHRASES@[51].3 == "rip");
    assert(DEFAULT_PHRASES@[52].3 == "f");
    assert(DEFAULT_PHRASES@[53].3 == "gg {player}");
    assert(DEFAULT_PHRASES@[54].3 == "nice save {healer}");
    assert(DEFAULT_PHRASES@[55].3 == "good heal {healer}");
    assert(DEFAULT_PHRASES@[56].3 == "whew, close one");
    assert(DEFAULT_PHRASES@[57].3 == "{target} living on the edge");
    assert(DEFAULT_PHRASES@[59].3 == "jesus {target}");
    assert(DEFAULT_PHRASES@[60].3 == "nearly lost you there {target}");
    assert(DEFAULT_PHRASES@[61].3 == "{healer} is carrying this group");
}

proof fn rows_from_62_are_plain(i: int)
    requires
        62 <= i < 93,
        i != 75,
    ensures
        !text::has_char(DEFAULT_PHRASES@[i].3@, '$'),
{
    reveal_strlit("good eyes {healer}");
    reveal_strlit("okay I saw my life flash before my eyes just then");
    reveal_strlit("nice");
    reveal_strlit("good heal");
    reveal_strlit("close");
    reveal_strlit("HEAL {player}!");
    reveal_strlit("{player}!!");
    reveal_strlit("hp {player}!");
    reveal_strlit("watch {player}!");
    reveal_strlit("oh no {player}");
    reveal_strlit("{player} is going down!");
    reveal_strlit("someone on {player}!");
    reveal_strlit("it resisted again??");
    reveal_strlit("slow is not landing");
    reveal_strlit("keep trying");
    reveal_strlit("this mob is immune or something");
    reveal_strlit("oh come on");
    reveal_strlit("are you kidding me");
    reveal_strlit("every single time");
    reveal_strlit("this mob said no");
    reveal_strlit("we might just tank it");
    reveal_strlit("I am DONE with this resist mechanic");
    reveal_strlit("forget it, just burn it down");
    reveal_strlit("this is actually insane");
    reveal_strlit("heh");
    reveal_strlit("resist");
    reveal_strlit("again");
    reveal_strlit("that's {count} resists in a row");
    reveal_strlit("the slow curse continues");
    assert(DEFAULT_PHRASES@[62].3 == "good eyes {healer}");
    assert(DEFAULT_PHRASES@[63].3 == "okay I saw my life flash before my eyes just then");
    assert(DEFAULT_PHRASES@[64].3 == "nice");
    assert(DEFAULT_PHRASES@[65].3 == "good heal");
    assert(DEFAULT_PHRASES@[66].3 == "close");
    assert(DEFAULT_PHRASES@[67].3 == "HEAL {player}!");
    assert(DEFAULT_PHRASES@[68].3 == "{player}!!");
    assert(DEFAULT_PHRASES@[69].3 == "hp {player}!");
    assert(DEFAULT_PHRASES@[70].3 == "watch {player}!");
    assert(DEFAULT_PHRASES@[71].3 == "HEAL {player}!");
    assert(DEFAULT_PHRASES@[72].3 == "oh no {player}");
    assert(DEFAULT_PHRASES@[73].3 == "{player} is going down!");
    assert(DEFAULT_PHRASES@[74].3 == "someone on {player}!");
    assert(DEFAULT_PHRASES@[76].3 == "it resisted again??");
    assert(DEFAULT_PHRASES@[77].3 == "slow is not landing");
    assert(DEFAULT_PHRASES@[78].3 == "keep trying");
    assert(DEFAULT_PHRASES@[79].3 == "this mob is immune or something");
    assert(DEFAULT_PHRASES@[80].3 == "oh come on");
    assert(DEFAULT_PHRASES@[81].3 == "are you kidding me");
    assert(DEFAULT_PHRASES@[82].3 == "every single time");
    assert(DEFAULT_PHRASES@[83].3 == "this mob said no");
    assert(DEFAULT_PHRASES@[84].3 == "we might just tank it");
    assert(DEFAULT_PHRASES@[85].3 == "I am DONE with this resist mechanic");
    assert(DEFAULT_PHRASES@[86].3 == "forget it, just burn it down");
    assert(DEFAULT_PHRASES@[87].3 == "this is actually insane");
    assert(DEFAULT_PHRASES@[88].3 == "heh");
    assert(DEFAULT_PHRASES@[89].3 == "resist");
    assert(DEFAULT_PHRASES@[90].3 == "again");
    assert(DEFAULT_PHRASES@[91].3 == "that's {count} resists in a row");
    assert(DEFAULT_PHRASES@[92].3 == "the slow curse continues");
}

proof fn rows_from_93_are_plain(i: int)
    requires
        93 <= i < 124,
        i != 116,
    ensures
        !text::has_char(DEFAULT_PHRASES@[i].3@, '$'),
{
    reveal_strlit("okay forget slow, just burn it");
    reveal_strlit("{count} resists?? what is this mob made of");
    reveal_strlit("I've never seen anything this resistant");
    reveal_strlit("okay we are just tanking this full speed");
    reveal_strlit("gg");
    reveal_strlit("rip");
    reveal_strlit("that happened");
    reveal_strlit("f");
    reveal_strlit("well that sucked");
    reveal_strlit("okay that was a disaster lol");
    reveal_strlit("we got absolutely wrecked");
    reveal_strlit("alright, regroup");
    reveal_strlit("that sucked, let's go again");
    reveal_strlit("I'm not even mad, that was impressive");
    reveal_strlit("I cannot believe that");
    reveal_strlit("come on guys, we're better than this");
    reveal_strlit("okay what went wrong there");
    reveal_strlit("heh");
    reveal_strlit("clean sweep");
    reveal_strlit("nice work");
    reveal_strlit("we're in the zone");
    reveal_strlit("{count} clean kills, yeah buddy");
    reveal_strlit("group is firing on all cylinders");
    reveal_strlit("I love when a session goes like this");
    reveal_strlit("okay seriously great group tonight");
    reveal_strlit("incoming");
    reveal_strlit("inc");
    reveal_strlit("incoming {count}");
    assert(DEFAULT_PHRASES@[93].3 == "okay forget slow, just burn it");
    assert(DEFAULT_PHRASES@[94].3 == "{count} resists?? what is this mob made of");
    assert(DEFAULT_PHRASES@[95].3 == "I've never seen anything this resistant");
    assert(DEFAULT_PHRASES@[96].3 == "okay we are just tanking this full speed");
    assert(DEFAULT_PHRASES@[97].3 == "gg");
    assert(DEFAULT_PHRASES@[98].3 == "rip");
    assert(DEFAULT_PHRASES@[99].3 == "that happened");
    assert(DEFAULT_PHRASES@[100].3 == "f");
    assert(DEFAULT_PHRASES@[101].3 == "well that sucked");
    assert(DEFAULT_PHRASES@[102].3 == "okay that was a disaster lol");
    assert(DEFAULT_PHRASES@[103].3 == "we got absolutely wrecked");
    assert(DEFAULT_PHRASES@[104].3 == "alright, regroup");
    assert(DEFAULT_PHRASES@[105].3 == "that sucked, let's go again");
    assert(DEFAULT_PHRASES@[106].3 == "I'm not even mad, that was impressive");
    assert(DEFAULT_PHRASES@[107].3 == "I cannot believe that");
    assert(DEFAULT_PHRASES@[108].3 == "come on guys, we're better than this");
    assert(DEFAULT_PHRASES@[109].3 == "okay what went wrong there");
    assert(DEFAULT_PHRASES@[110].3 == "rip");
    assert(DEFAULT_PHRASES@[111].3 == "gg");
    assert(DEFAULT_PHRASES@[112].3 == "heh");
    assert(DEFAULT_PHRASES@[113].3 == "clean sweep");
    assert(DEFAULT_PHRASES@[114].3 == "nice work");
    assert(DEFAULT_PHRASES@[115].3 == "we're in the zone");
    assert(DEFAULT_PHRASES@[117].3 == "{count} clean kills, yeah buddy");
    assert(DEFAULT_PHRASES@[118].3 == "group is firing on all cylinders");
    assert(DEFAULT_PHRASES@[119].3 == "I love when a session goes like this");
    assert(DEFAULT_PHRASES@[120].3 == "okay seriously great group tonight");
    assert(DEFAULT_PHRASES@[121].3 == "incoming");
    assert(DEFAULT_PHRASES@[122].3 == "inc");
    assert(DEFAULT_PHRASES@[123].3 == "incoming {count}");
}

proof fn rows_from_124_are_plain(i: int)
    requires
        124 <= i < 155,
    ensures
        !text::has_char(DEFAULT_PHRASES@[i].3@, '$'),
{
    reveal_strlit("on the way");
    reveal_strlit("pulling {mob}");
    reveal_strlit("got one, incoming");
    reveal_strlit("pulling now");
    reveal_strlit("incoming {count}, get ready");
    reveal_strlit("{mob} incoming");
    reveal_strlit("inc");
    reveal_strlit("incoming");
    reveal_strlit("pulling {count}");
    reveal_strlit("got {mob}");
    reveal_strlit("incoming {count}");
    reveal_strlit("heads up {count} up");
    reveal_strlit("pulling {mob}, hold positions");
    reveal_strlit("oom");
    reveal_strlit("med please");
    reveal_strlit("oom, 1 sec");
    reveal_strlit("need to sit");
    reveal_strlit("running on fumes");
    reveal_strlit("almost dry");
    reveal_strlit("oom, hang on");
    reveal_strlit("I have like zero mana left");
    reveal_strlit("don't pull, I'm oom");
    reveal_strlit("give me a sec to med");
    reveal_strlit("if you pull right now I literally cannot help you");
    reveal_strlit("sec");
    reveal_strlit("med");
    reveal_strlit("nice drop");
    reveal_strlit("ooh {item}");
    assert(DEFAULT_PHRASES@[124].3 == "on the way");
    assert(DEFAULT_PHRASES@[125].3 == "pulling {mob}");
    assert(DEFAULT_PHRASES@[126].3 == "got one, incoming");
    assert(DEFAULT_PHRASES@[127].3 == "pulling now");
    assert(DEFAULT_PHRASES@[128].3 == "incoming {count}, get ready");
    assert(DEFAULT_PHRASES@[129].3 == "{mob} incoming");
    assert(DEFAULT_PHRASES@[130].3 == "pulling {mob}");
    assert(DEFAULT_PHRASES@[131].3 == "inc");
    assert(DEFAULT_PHRASES@[132].3 == "incoming");
    assert(DEFAULT_PHRASES@[133].3 == "pulling {count}");
    assert(DEFAULT_PHRASES@[134].3 == "got {mob}");
    assert(DEFAULT_PHRASES@[135].3 == "incoming {count}");
    assert(DEFAULT_PHRASES@[136].3 == "on the way");
    assert(DEFAULT_PHRASES@[137].3 == "heads up {count} up");
    assert(DEFAULT_PHRASES@[138].3 == "pulling {mob}, hold positions");
    assert(DEFAULT_PHRASES@[139].3 == "oom");
    assert(DEFAULT_PHRASES@[140].3 == "med please");
    assert(DEFAULT_PHRASES@[141].3 == "oom, 1 sec");
    assert(DEFAULT_PHRASES@[142].3 == "need to sit");
    assert(DEFAULT_PHRASES@[143].3 == "running on fumes");
    assert(DEFAULT_PHRASES@[144].3 == "almost dry");
    assert(DEFAULT_PHRASES@[145].3 == "oom, hang on");
    assert(DEFAULT_PHRASES@[146].3 == "I have like zero mana left");
    assert(DEFAULT_PHRASES@[147].3 == "don't pull, I'm oom");
    assert(DEFAULT_PHRASES@[148].3 == "give me a sec to med");
    assert(DEFAULT_PHRASES@[149].3 == "if you pull right now I literally cannot help you");
    assert(DEFAULT_PHRASES@[150].3 == "oom");
    assert(DEFAULT_PHRASES@[151].3 == "sec");
    assert(DEFAULT_PHRASES@[152].3 == "med");
    assert(DEFAULT_PHRASES@[153].3 == "nice drop");
    assert(DEFAULT_PHRASES@[154].3 == "ooh {item}");
}

proof fn rows_from_155_are_plain(i: int)
    requires
        155 <= i < 186,
    ensures
        !text::has_char(DEFAULT_PHRASES@[i].3@, '$'),
{
    reveal_strlit("good loot");
    reveal_strlit("let's go");
    reveal_strlit("oh hell yeah {item}");
    reveal_strlit("that's what I'm talking about");
    reveal_strlit("{item} let's go!!");
    reveal_strlit("yeah buddy we're eating tonight");
    reveal_strlit("finally some good loot");
    reveal_strlit("YEAH BUDDY {item}");
    reveal_strlit("okay this is the run");
    reveal_strlit("I called it, I called it");
    reveal_strlit("best session ever");
    reveal_strlit("nice");
    reveal_strlit("ooh");
    reveal_strlit("good drop");
    reveal_strlit("{item}");
    reveal_strlit("nice, who needs that");
    reveal_strlit("meh");
    reveal_strlit("oof");
    reveal_strlit("trash");
    reveal_strlit("{item}... pass");
    reveal_strlit("lol what is this {item}");
    reveal_strlit("garbage loot as usual");
    reveal_strlit("the loot gods hate us");
    reveal_strlit("okay moving on");
    reveal_strlit("{item} why is this even in the game");
    reveal_strlit("I'm done with this loot table");
    reveal_strlit("we genuinely cannot catch a break");
    reveal_strlit("whoever designed this loot table...");
    reveal_strlit("heh");
    assert(DEFAULT_PHRASES@[155].3 == "good loot");
    assert(DEFAULT_PHRASES@[156].3 == "let's go");
    assert(DEFAULT_PHRASES@[157].3 == "oh hell yeah {item}");
    assert(DEFAULT_PHRASES@[158].3 == "that's what I'm talking about");
    assert(DEFAULT_PHRASES@[159].3 == "{item} let's go!!");
    assert(DEFAULT_PHRASES@[160].3 == "yeah buddy we're eating tonight");
    assert(DEFAULT_PHRASES@[161].3 == "finally some good loot");
    assert(DEFAULT_PHRASES@[162].3 == "YEAH BUDDY {item}");
    assert(DEFAULT_PHRASES@[163].3 == "okay this is the run");
    assert(DEFAULT_PHRASES@[164].3 == "I called it, I called it");
    assert(DEFAULT_PHRASES@[165].3 == "best session ever");
    assert(DEFAULT_PHRASES@[166].3 == "nice");
    assert(DEFAULT_PHRASES@[167].3 == "ooh");
    assert(DEFAULT_PHRASES@[168].3 == "good drop");
    assert(DEFAULT_PHRASES@[169].3 == "{item}");
    assert(DEFAULT_PHRASES@[170].3 == "nice, who needs that");
    assert(DEFAULT_PHRASES@[171].3 == "good drop");
    assert(DEFAULT_PHRASES@[172].3 == "meh");
    assert(DEFAULT_PHRASES@[173].3 == "oof");
    assert(DEFAULT_PHRASES@[174].3 == "trash");
    assert(DEFAULT_PHRASES@[175].3 == "{item}... pass");
    assert(DEFAULT_PHRASES@[176].3 == "lol what is this {item}");
    assert(DEFAULT_PHRASES@[177].3 == "garbage loot as usual");
    assert(DEFAULT_PHRASES@[178].3 == "the loot gods hate us");
    assert(DEFAULT_PHRASES@[179].3 == "okay moving on");
    assert(DEFAULT_PHRASES@[180].3 == "{item} why is this even in the game");
    assert(DEFAULT_PHRASES@[181].3 == "I'm done with this loot table");
    assert(DEFAULT_PHRASES@[182].3 == "we genuinely cannot catch a break");
    assert(DEFAULT_PHRASES@[183].3 == "whoever designed this loot table...");
    assert(DEFAULT_PHRASES@[184].3 == "meh");
    assert(DEFAULT_PHRASES@[185].3 == "heh");
}

proof fn rows_from_186_are_plain(i: int)
    requires
        186 <= i < 217,
    ensures
        !text::has_char(DEFAULT_PHRASES@[i].3@, '$'),
{
    reveal_strlit("gg");
    reveal_strlit("grats {who}!");
    reveal_strlit("gz {who}");
    reveal_strlit("level {level}!");
    reveal_strlit("nice ding {who}");
    reveal_strlit("yeah buddy {who} hit {level}!");
    reveal_strlit("LETS GO {who}");
    reveal_strlit("grats!! {level} is a good level");
    reveal_strlit("oh shit {who} dinged");
    reveal_strlit("{who} with the ding, yeah buddy");
    reveal_strlit("grats");
    reveal_strlit("nice");
    reveal_strlit("brb");
    reveal_strlit("sec");
    reveal_strlit("one sec");
    reveal_strlit("afk");
    reveal_strlit("brb one sec");
    reveal_strlit("gonna grab a snack real quick");
    reveal_strlit("afk a couple mins");
    reveal_strlit("brb {rl_reason}");
    reveal_strlit("sec, {rl_reason}");
    reveal_strlit("one sec, need to deal with something");
    reveal_strlit("back");
    reveal_strlit("ok back");
    reveal_strlit("back, what I miss");
    reveal_strlit("sorry, back");
    assert(DEFAULT_PHRASES@[186].3 == "gg");
    assert(DEFAULT_PHRASES@[187].3 == "grats {who}!");
    assert(DEFAULT_PHRASES@[188].3 == "gz {who}");
    assert(DEFAULT_PHRASES@[189].3 == "level {level}!");
    assert(DEFAULT_PHRASES@[190].3 == "nice ding {who}");
    assert(DEFAULT_PHRASES@[191].3 == "yeah buddy {who} hit {level}!");
    assert(DEFAULT_PHRASES@[192].3 == "LETS GO {who}");
    assert(DEFAULT_PHRASES@[193].3 == "grats!! {level} is a good level");
    assert(DEFAULT_PHRASES@[194].3 == "oh shit {who} dinged");
    assert(DEFAULT_PHRASES@[195].3 == "{who} with the ding, yeah buddy");
    assert(DEFAULT_PHRASES@[196].3 == "gz {who}");
    assert(DEFAULT_PHRASES@[197].3 == "grats");
    assert(DEFAULT_PHRASES@[198].3 == "nice");
    assert(DEFAULT_PHRASES@[199].3 == "brb");
    assert(DEFAULT_PHRASES@[200].3 == "sec");
    assert(DEFAULT_PHRASES@[201].3 == "one sec");
    assert(DEFAULT_PHRASES@[202].3 == "afk");
    assert(DEFAULT_PHRASES@[203].3 == "brb one sec");
    assert(DEFAULT_PHRASES@[204].3 == "gonna grab a snack real quick");
    assert(DEFAULT_PHRASES@[205].3 == "afk a couple mins");
    assert(DEFAULT_PHRASES@[206].3 == "brb {rl_reason}");
    assert(DEFAULT_PHRASES@[207].3 == "sec, {rl_reason}");
    assert(DEFAULT_PHRASES@[208].3 == "one sec, need to deal with something");
    assert(DEFAULT_PHRASES@[209].3 == "brb");
    assert(DEFAULT_PHRASES@[210].3 == "sec");
    assert(DEFAULT_PHRASES@[211].3 == "afk");
    assert(DEFAULT_PHRASES@[212].3 == "back");
    assert(DEFAULT_PHRASES@[213].3 == "ok back");
    assert(DEFAULT_PHRASES@[214].3 == "back, what I miss");
    assert(DEFAULT_PHRASES@[215].3 == "ok back");
    assert(DEFAULT_PHRASES@[216].3 == "sorry, back");
}

proof fn rows_from_217_are_plain(i: int)
    requires
        217 <= i < 248,
        i != 227,
        i != 232,
        i != 233,
        i != 247,
    ensures
        !text::has_char(DEFAULT_PHRASES@[i].3@, '$'),
{
    reveal_strlit("back, what happened");
    reveal_strlit("ok back, did we die?");
    reveal_strlit("back. she's {rl_context} lol");
    reveal_strlit("sorry about that, back now");
    reveal_strlit("back");
    reveal_strlit("ok");
    reveal_strlit("back.");
    reveal_strlit("{player} having a rough round");
    reveal_strlit("{player} might need a new weapon");
    reveal_strlit("lol {player}");
    reveal_strlit("did you equip a weapon {player}");
    reveal_strlit("lol {player} can't buy a hit");
    reveal_strlit("{player} and {mob} are just vibing at this point");
    reveal_strlit("maybe try actually swinging {player}");
    reveal_strlit("heh");
    reveal_strlit("{player}...");
    reveal_strlit("nice {ability}!");
    reveal_strlit("{src} with the big hit");
    reveal_strlit("{src} cooking");
    reveal_strlit("dayum {src}");
    reveal_strlit("BOOM");
    reveal_strlit("{src} you absolute monster");
    reveal_strlit("okay {src} calm down lol");
    reveal_strlit("{src} said delete {tgt}");
    reveal_strlit("I felt that from here");
    reveal_strlit("yeah buddy {src}!!");
    assert(DEFAULT_PHRASES@[217].3 == "back, what happened");
    assert(DEFAULT_PHRASES@[218].3 == "ok back, did we die?");
    assert(DEFAULT_PHRASES@[219].3 == "back. she's {rl_context} lol");
    assert(DEFAULT_PHRASES@[220].3 == "sorry about that, back now");
    assert(DEFAULT_PHRASES@[221].3 == "back");
    assert(DEFAULT_PHRASES@[222].3 == "ok");
    assert(DEFAULT_PHRASES@[223].3 == "back.");
    assert(DEFAULT_PHRASES@[224].3 == "{player} having a rough round");
    assert(DEFAULT_PHRASES@[225].3 == "{player} might need a new weapon");
    assert(DEFAULT_PHRASES@[226].3 == "lol {player}");
    assert(DEFAULT_PHRASES@[228].3 == "did you equip a weapon {player}");
    assert(DEFAULT_PHRASES@[229].3 == "lol {player} can't buy a hit");
    assert(DEFAULT_PHRASES@[230].3 == "{player} and {mob} are just vibing at this point");
    assert(DEFAULT_PHRASES@[231].3 == "maybe try actually swinging {player}");
    assert(DEFAULT_PHRASES@[234].3 == "lol {player}");
    assert(DEFAULT_PHRASES@[235].3 == "heh");
    assert(DEFAULT_PHRASES@[236].3 == "{player}...");
    assert(DEFAULT_PHRASES@[237].3 == "nice {ability}!");
    assert(DEFAULT_PHRASES@[238].3 == "{src} with the big hit");
    assert(DEFAULT_PHRASES@[239].3 == "{src} cooking");
    assert(DEFAULT_PHRASES@[240].3 == "dayum {src}");
    assert(DEFAULT_PHRASES@[241].3 == "BOOM");
    assert(DEFAULT_PHRASES@[242].3 == "{src} you absolute monster");
    assert(DEFAULT_PHRASES@[243].3 == "okay {src} calm down lol");
    assert(DEFAULT_PHRASES@[244].3 == "{src} said delete {tgt}");
    assert(DEFAULT_PHRASES@[245].3 == "I felt that from here");
    assert(DEFAULT_PHRASES@[246].3 == "yeah buddy {src}!!");
}

proof fn rows_from_248_are_plain(i: int)
    requires
        248 <= i < 279,
        i != 249,
        i != 265,
    ensures
        !text::has_char(DEFAULT_PHRASES@[i].3@, '$'),
{
    reveal_strlit("nice");
    reveal_strlit("damn");
    reveal_strlit("ready when you are");
    reveal_strlit("lol");
    reveal_strlit("how's everyone's health?");
    reveal_strlit("good fight");
    reveal_strlit("pull whenever");
    reveal_strlit("eyes open");
    reveal_strlit("this is a good camp");
    reveal_strlit("okay med break");
    reveal_strlit("one more");
    reveal_strlit("this mob hits like a truck");
    reveal_strlit("exp is looking good tonight");
    reveal_strlit("we got this");
    reveal_strlit("stay focused");
    reveal_strlit("I could do this all night");
    reveal_strlit("solid group tonight");
    reveal_strlit("good pace");
    reveal_strlit("what time is it even");
    reveal_strlit("I need sleep but one more pull");
    reveal_strlit("yeah buddy");
    reveal_strlit("this is the run");
    reveal_strlit("I love a clean pull");
    reveal_strlit("okay seriously having fun tonight");
    reveal_strlit("lol classic");
    reveal_strlit("best group I've been in");
    reveal_strlit("I trust this group");
    reveal_strlit("I feel unstoppable right now");
    assert(DEFAULT_PHRASES@[248].3 == "nice");
    assert(DEFAULT_PHRASES@[250].3 == "damn");
    assert(DEFAULT_PHRASES@[251].3 == "ready when you are");
    assert(DEFAULT_PHRASES@[252].3 == "nice");
    assert(DEFAULT_PHRASES@[253].3 == "lol");
    assert(DEFAULT_PHRASES@[254].3 == "how's everyone's health?");
    assert(DEFAULT_PHRASES@[255].3 == "good fight");
    assert(DEFAULT_PHRASES@[256].3 == "pull whenever");
    assert(DEFAULT_PHRASES@[257].3 == "eyes open");
    assert(DEFAULT_PHRASES@[258].3 == "this is a good camp");
    assert(DEFAULT_PHRASES@[259].3 == "okay med break");
    assert(DEFAULT_PHRASES@[260].3 == "one more");
    assert(DEFAULT_PHRASES@[261].3 == "this mob hits like a truck");
    assert(DEFAULT_PHRASES@[262].3 == "exp is looking good tonight");
    assert(DEFAULT_PHRASES@[263].3 == "we got this");
    assert(DEFAULT_PHRASES@[264].3 == "stay focused");
    assert(DEFAULT_PHRASES@[266].3 == "I could do this all night");
    assert(DEFAULT_PHRASES@[267].3 == "solid group tonight");
    assert(DEFAULT_PHRASES@[268].3 == "good pace");
    assert(DEFAULT_PHRASES@[269].3 == "what time is it even");
    assert(DEFAULT_PHRASES@[270].3 == "I need sleep but one more pull");
    assert(DEFAULT_PHRASES@[271].3 == "yeah buddy");
    assert(DEFAULT_PHRASES@[272].3 == "this is the run");
    assert(DEFAULT_PHRASES@[273].3 == "I love a clean pull");
    assert(DEFAULT_PHRASES@[274].3 == "okay seriously having fun tonight");
    assert(DEFAULT_PHRASES@[275].3 == "lol classic");
    assert(DEFAULT_PHRASES@[276].3 == "best group I've been in");
    assert(DEFAULT_PHRASES@[277].3 == "I trust this group");
    assert(DEFAULT_PHRASES@[278].3 == "I feel unstoppable right now");
}

proof fn rows_from_279_are_plain(i: int)
    requires
        279 <= i < 310,
    ensures
        !text::has_char(DEFAULT_PHRASES@[i].3@, '$'),
{
    reveal_strlit("heh");
    reveal_strlit("nice");
    reveal_strlit("yeah");
    reveal_strlit("ready");
    reveal_strlit("good");
    reveal_strlit("good job everyone");
    reveal_strlit("keep the pace");
    reveal_strlit("nice work");
    reveal_strlit("stay on target");
    reveal_strlit("eyes open");
    reveal_strlit("I am having the BEST time right now");
    reveal_strlit("this is exactly why I play this game");
    reveal_strlit("okay we are legitimately unstoppable");
    reveal_strlit("every pull just goes, it's beautiful");
    reveal_strlit("I want to screenshot this group");
    reveal_strlit("okay I might be falling asleep lol");
    reveal_strlit("one more then I really gotta sleep");
    reveal_strlit("wife's gonna kill me, one more pull");
    reveal_strlit("my eyes are literally closing");
    reveal_strlit("I keep zoning out, sorry");
    reveal_strlit("CC on {mob}");
    reveal_strlit("got the extra, don't touch it");
    reveal_strlit("mez on {mob}, leave it");
    reveal_strlit("rooted, focus main mob");
    reveal_strlit("extra is CC'd");
    reveal_strlit("got {mob}");
    reveal_strlit("cc'd");
    reveal_strlit("mez on {mob}");
    reveal_strlit("rooted");
    reveal_strlit("hold {mob}, focus main");
    assert(DEFAULT_PHRASES@[279].3 == "heh");
    assert(DEFAULT_PHRASES@[280].3 == "nice");
    assert(DEFAULT_PHRASES@[281].3 == "yeah");
    assert(DEFAULT_PHRASES@[282].3 == "ready");
    assert(DEFAULT_PHRASES@[283].3 == "good");
    assert(DEFAULT_PHRASES@[284].3 == "good job everyone");
    assert(DEFAULT_PHRASES@[285].3 == "keep the pace");
    assert(DEFAULT_PHRASES@[286].3 == "nice work");
    assert(DEFAULT_PHRASES@[287].3 == "stay on target");
    assert(DEFAULT_PHRASES@[288].3 == "eyes open");
    assert(DEFAULT_PHRASES@[289].3 == "I am having the BEST time right now");
    assert(DEFAULT_PHRASES@[290].3 == "this is exactly why I play this game");
    assert(DEFAULT_PHRASES@[291].3 == "okay we are legitimately unstoppable");
    assert(DEFAULT_PHRASES@[292].3 == "every pull just goes, it's beautiful");
    assert(DEFAULT_PHRASES@[293].3 == "I want to screenshot this group");
    assert(DEFAULT_PHRASES@[294].3 == "okay I might be falling asleep lol");
    assert(DEFAULT_PHRASES@[295].3 == "one more then I really gotta sleep");
    assert(DEFAULT_PHRASES@[296].3 == "wife's gonna kill me, one more pull");
    assert(DEFAULT_PHRASES@[297].3 == "my eyes are literally closing");
    assert(DEFAULT_PHRASES@[298].3 == "I keep zoning out, sorry");
    assert(DEFAULT_PHRASES@[299].3 == "CC on {mob}");
    assert(DEFAULT_PHRASES@[300].3 == "got the extra, don't touch it");
    assert(DEFAULT_PHRASES@[301].3 == "mez on {mob}, leave it");
    assert(DEFAULT_PHRASES@[302].3 == "rooted, focus main mob");
    assert(DEFAULT_PHRASES@[303].3 == "extra is CC'd");
    assert(DEFAULT_PHRASES@[304].3 == "got {mob}");
    assert(DEFAULT_PHRASES@[305].3 == "cc'd");
    assert(DEFAULT_PHRASES@[306].3 == "mez on {mob}");
    assert(DEFAULT_PHRASES@[307].3 == "rooted");
    assert(DEFAULT_PHRASES@[308].3 == "CC on {mob}");
    assert(DEFAULT_PHRASES@[309].3 == "hold {mob}, focus main");
}

proof fn rows_from_310_are_plain(i: int)
    requires
        310 <= i < 341,
    ensures
        !text::has_char(DEFAULT_PHRASES@[i].3@, '$'),
{
    reveal_strlit("extra is handled");
    reveal_strlit("add on me");
    reveal_strlit("one on me, need help");
    reveal_strlit("I've got one on me!");
    reveal_strlit("{mob} is on me!");
    reveal_strlit("someone get this off me");
    reveal_strlit("off me please!");
    reveal_strlit("someone peel this");
    reveal_strlit("{mob} on me");
    reveal_strlit("all down");
    reveal_strlit("clean sweep");
    reveal_strlit("handled");
    reveal_strlit("nice work on the pack");
    reveal_strlit("entire pack cleared");
    reveal_strlit("yeah buddy!! ALL of them");
    reveal_strlit("we absolutely handled that pack");
    reveal_strlit("clean sweep, that's what I'm talking about");
    reveal_strlit("every. single. one.");
    reveal_strlit("okay we do not wipe, I said what I said");
    reveal_strlit("WE ARE UNTOUCHABLE");
    reveal_strlit("nothing can stop us right now");
    reveal_strlit("entire pack, zero effort, YEAH BUDDY");
    reveal_strlit("clean");
    reveal_strlit("gg");
    reveal_strlit("good, moving on");
    reveal_strlit("all down, next");
    reveal_strlit("pack cleared");
    reveal_strlit("TANK!!");
    assert(DEFAULT_PHRASES@[310].3 == "extra is handled");
    assert(DEFAULT_PHRASES@[311].3 == "add on me");
    assert(DEFAULT_PHRASES@[312].3 == "one on me, need help");
    assert(DEFAULT_PHRASES@[313].3 == "I've got one on me!");
    assert(DEFAULT_PHRASES@[314].3 == "{mob} is on me!");
    assert(DEFAULT_PHRASES@[315].3 == "someone get this off me");
    assert(DEFAULT_PHRASES@[316].3 == "off me please!");
    assert(DEFAULT_PHRASES@[317].3 == "someone peel this");
    assert(DEFAULT_PHRASES@[318].3 == "add on me");
    assert(DEFAULT_PHRASES@[319].3 == "one on me, need help");
    assert(DEFAULT_PHRASES@[320].3 == "{mob} on me");
    assert(DEFAULT_PHRASES@[321].3 == "all down");
    assert(DEFAULT_PHRASES@[322].3 == "clean sweep");
    assert(DEFAULT_PHRASES@[323].3 == "handled");
    assert(DEFAULT_PHRASES@[324].3 == "nice work on the pack");
    assert(DEFAULT_PHRASES@[325].3 == "entire pack cleared");
    assert(DEFAULT_PHRASES@[326].3 == "yeah buddy!! ALL of them");
    assert(DEFAULT_PHRASES@[327].3 == "we absolutely handled that pack");
    assert(DEFAULT_PHRASES@[328].3 == "clean sweep, that's what I'm talking about");
    assert(DEFAULT_PHRASES@[329].3 == "every. single. one.");
    assert(DEFAULT_PHRASES@[330].3 == "okay we do not wipe, I said what I said");
    assert(DEFAULT_PHRASES@[331].3 == "WE ARE UNTOUCHABLE");
    assert(DEFAULT_PHRASES@[332].3 == "nothing can stop us right now");
    assert(DEFAULT_PHRASES@[333].3 == "entire pack, zero effort, YEAH BUDDY");
    assert(DEFAULT_PHRASES@[334].3 == "handled");
    assert(DEFAULT_PHRASES@[335].3 == "clean");
    assert(DEFAULT_PHRASES@[336].3 == "gg");
    assert(DEFAULT_PHRASES@[337].3 == "good, moving on");
    assert(DEFAULT_PHRASES@[338].3 == "all down, next");
    assert(DEFAULT_PHRASES@[339].3 == "pack cleared");
    assert(DEFAULT_PHRASES@[340].3 == "TANK!!");
}

proof fn rows_from_341_are_plain(i: int)
    requires
        341 <= i < 372,
    ensures
        !text::has_char(DEFAULT_PHRASES@[i].3@, '$'),
{
    reveal_strlit("healer wake up");
    reveal_strlit("HEAL {player}!!");
    reveal_strlit("uh oh");
    reveal_strlit("{player}!!");
    reveal_strlit("TANK IS DYING");
    reveal_strlit("oh no oh no oh no");
    reveal_strlit("CLR NOW");
    reveal_strlit("{player} is going down!!");
    reveal_strlit("EMERGENCY HEALS {player}");
    reveal_strlit("HEAL HIM HEAL HIM");
    reveal_strlit("HEAL {player}");
    reveal_strlit("tank");
    reveal_strlit("CH {player}");
    reveal_strlit("CLR on {player} NOW");
    reveal_strlit("healer on tank");
    reveal_strlit("all heals on {player}");
    reveal_strlit("{pct}% mana");
    reveal_strlit("at {pct}%");
    reveal_strlit("low mana");
    reveal_strlit("need to sit");
    reveal_strlit("conserving mana");
    reveal_strlit("oom at {pct}%, hang on");
    reveal_strlit("I'm at {pct}%, need to conserve");
    reveal_strlit("running dry, {pct}%");
    reveal_strlit("almost out of mana lol");
    reveal_strlit("don't pull, I'm at {pct}%");
    reveal_strlit("{pct}m");
    reveal_strlit("oom");
    reveal_strlit("{pct}%");
    reveal_strlit("{pct}% mana, slowing down");
    reveal_strlit("healers conserve mana");
    assert(DEFAULT_PHRASES@[341].3 == "healer wake up");
    assert(DEFAULT_PHRASES@[342].3 == "HEAL {player}!!");
    assert(DEFAULT_PHRASES@[343].3 == "uh oh");
    assert(DEFAULT_PHRASES@[344].3 == "{player}!!");
    assert(DEFAULT_PHRASES@[345].3 == "TANK IS DYING");
    assert(DEFAULT_PHRASES@[346].3 == "oh no oh no oh no");
    assert(DEFAULT_PHRASES@[347].3 == "CLR NOW");
    assert(DEFAULT_PHRASES@[348].3 == "{player} is going down!!");
    assert(DEFAULT_PHRASES@[349].3 == "EMERGENCY HEALS {player}");
    assert(DEFAULT_PHRASES@[350].3 == "HEAL HIM HEAL HIM");
    assert(DEFAULT_PHRASES@[351].3 == "HEAL {player}");
    assert(DEFAULT_PHRASES@[352].3 == "tank");
    assert(DEFAULT_PHRASES@[353].3 == "CH {player}");
    assert(DEFAULT_PHRASES@[354].3 == "CLR on {player} NOW");
    assert(DEFAULT_PHRASES@[355].3 == "healer on tank");
    assert(DEFAULT_PHRASES@[356].3 == "all heals on {player}");
    assert(DEFAULT_PHRASES@[357].3 == "{pct}% mana");
    assert(DEFAULT_PHRASES@[358].3 == "at {pct}%");
    assert(DEFAULT_PHRASES@[359].3 == "low mana");
    assert(DEFAULT_PHRASES@[360].3 == "need to sit");
    assert(DEFAULT_PHRASES@[361].3 == "conserving mana");
    assert(DEFAULT_PHRASES@[362].3 == "oom at {pct}%, hang on");
    assert(DEFAULT_PHRASES@[363].3 == "I'm at {pct}%, need to conserve");
    assert(DEFAULT_PHRASES@[364].3 == "running dry, {pct}%");
    assert(DEFAULT_PHRASES@[365].3 == "almost out of mana lol");
    assert(DEFAULT_PHRASES@[366].3 == "don't pull, I'm at {pct}%");
    assert(DEFAULT_PHRASES@[367].3 == "{pct}m");
    assert(DEFAULT_PHRASES@[368].3 == "oom");
    assert(DEFAULT_PHRASES@[369].3 == "{pct}%");
    assert(DEFAULT_PHRASES@[370].3 == "{pct}% mana, slowing down");
    assert(DEFAULT_PHRASES@[371].3 == "healers conserve mana");
}

/// The templates that name fragments can be said.
proof fn marked_rows_are_sayable(db: PhraseDb, i: int)
    requires
        db.has_defaults(),
        i == 4 || i == 15 || i == 45 || i == 58 || i == 75 || i == 116 || i == 227 || i == 232 || i == 233 || i == 247 || i == 249 || i == 265,
    ensures
        is_sayable(db, DEFAULT_PHRASES@[i].3@),
{
    reveal_strlit("{$");
    reveal_strlit("}");
    reveal_strlit("");
    named_fragments_are_known(db);
    plain_templates_are_sayable(db, ""@);
    reveal_strlit("easy");
    reveal_strlit("hype");
    reveal_strlit("miss_jab");
    reveal_strlit("rough");
    reveal_strlit("wow");
    if i == 4 {
        let s = "{$easy}"@;
        assert(DEFAULT_PHRASES@[4].3@ == s);
        reveal_strlit("{$easy}");
        assert("{$easy}"@ =~= ""@ + "{$"@ + ("easy"@ + "}"@ + ""@));
        fragments_are_sayable(db, "{$easy}"@, ""@, "easy"@, ""@);
    }
    if i == 15 {
        let s = "one down, {$hype}"@;
        assert(DEFAULT_PHRASES@[15].3@ == s);
        reveal_strlit("one down, ");
        reveal_strlit("one down, {$hype}");
        assert("one down, {$hype}"@ =~= "one down, "@ + "{$"@ + ("hype"@ + "}"@ + ""@));
        fragments_are_sayable(db, "one down, {$hype}"@, "one down, "@, "hype"@, ""@);
    }
    if i == 45 {
        let s = "{$rough} {player}"@;
        assert(DEFAULT_PHRASES@[45].3@ == s);
        reveal_strlit(" {player}");
        reveal_strlit("{$rough} {player}");
        plain_templates_are_sayable(db, " {player}"@);
        assert("{$rough} {player}"@ =~= ""@ + "{$"@ + ("rough"@ + "}"@ + " {player}"@));
        fragments_are_sayable(db, "{$rough} {player}"@, ""@, "rough"@, " {player}"@);
    }
    if i == 58 {
        let s = "{$wow}... {healer} with the save"@;
        assert(DEFAULT_PHRASES@[58].3@ == s);
        reveal_strlit("... {healer} with the save");
        reveal_strlit("{$wow}... {healer} with the save");
        plain_templates_are_sayable(db, "... {healer} with the save"@);
        assert("{$wow}... {healer} with the save"@ =~= ""@ + "{$"@ + ("wow"@ + "}"@ + "... {healer} with the save"@));
        fragments_are_sayable(db, "{$wow}... {healer} with the save"@, ""@, "wow"@, "... {healer} with the save"@);
    }
    if i == 75 {
        let s = "{$rough} {player}!!"@;
        assert(DEFAULT_PHRASES@[75].3@ == s);
        reveal_strlit(" {player}!!");
        reveal_strlit("{$rough} {player}!!");
        plain_templates_are_sayable(db, " {player}!!"@);
        assert("{$rough} {player}!!"@ =~= ""@ + "{$"@ + ("rough"@ + "}"@ + " {player}!!"@));
        fragments_are_sayable(db, "{$rough} {player}!!"@, ""@, "rough"@, " {player}!!"@);
    }
    if i == 116 {
        let s = "{$hype}"@;
        assert(DEFAULT_PHRASES@[116].3@ == s);
        reveal_strlit("{$hype}");
        assert("{$hype}"@ =~= ""@ + "{$"@ + ("hype"@ + "}"@ + ""@));
        fragments_are_sayable(db, "{$hype}"@, ""@, "hype"@, ""@);
    }
    if i == 227 {
        let s = "{$wow} {player}, {$miss_jab}"@;
        assert(DEFAULT_PHRASES@[227].3@ == s);
        reveal_strlit(" {player}, ");
        reveal_strlit(" {player}, {$miss_jab}");
        reveal_strlit("{$wow} {player}, {$miss_jab}");
        assert(" {player}, {$miss_jab}"@ =~= " {player}, "@ + "{$"@ + ("miss_jab"@ + "}"@ + ""@));
        fragments_are_sayable(db, " {player}, {$miss_jab}"@, " {player}, "@, "miss_jab"@, ""@);
        assert("{$wow} {player}, {$miss_jab}"@ =~= ""@ + "{$"@ + ("wow"@ + "}"@ + " {player}, {$miss_jab}"@));
        fragments_are_sayable(db, "{$wow} {player}, {$miss_jab}"@, ""@, "wow"@, " {player}, {$miss_jab}"@);
    }
    if i == 232 {
        let s = "{player} {$miss_jab}"@;
        assert(DEFAULT_PHRASES@[232].3@ == s);
        reveal_strlit("{player} ");
        reveal_strlit("{player} {$miss_jab}");
        assert("{player} {$miss_jab}"@ =~= "{player} "@ + "{$"@ + ("miss_jab"@ + "}"@ + ""@));
        fragments_are_sayable(db, "{player} {$miss_jab}"@, "{player} "@, "miss_jab"@, ""@);
    }
    if i == 233 {
        let s = "{$wow} {player} is {$miss_jab}"@;
        assert(DEFAULT_PHRASES@[233].3@ == s);
        reveal_strlit(" {player} is ");
        reveal_strlit(" {player} is {$miss_jab}");
        reveal_strlit("{$wow} {player} is {$miss_jab}");
        assert(" {player} is {$miss_jab}"@ =~= " {player} is "@ + "{$"@ + ("miss_jab"@ + "}"@ + ""@));
        fragments_are_sayable(db, " {player} is {$miss_jab}"@, " {player} is "@, "miss_jab"@, ""@);
        assert("{$wow} {player} is {$miss_jab}"@ =~= ""@ + "{$"@ + ("wow"@ + "}"@ + " {player} is {$miss_jab}"@));
        fragments_are_sayable(db, "{$wow} {player} is {$miss_jab}"@, ""@, "wow"@, " {player} is {$miss_jab}"@);
    }
    if i == 247 {
        let s = "{src} is {$hype}"@;
        assert(DEFAULT_PHRASES@[247].3@ == s);
        reveal_strlit("{src} is ");
        reveal_strlit("{src} is {$hype}");
        assert("{src} is {$hype}"@ =~= "{src} is "@ + "{$"@ + ("hype"@ + "}"@ + ""@));
        fragments_are_sayable(db, "{src} is {$hype}"@, "{src} is "@, "hype"@, ""@);
    }
    if i == 249 {
        let s = "{$wow} {src}"@;
        assert(DEFAULT_PHRASES@[249].3@ == s);
        reveal_strlit(" {src}");
        reveal_strlit("{$wow} {src}");
        plain_templates_are_sayable(db, " {src}"@);
        assert("{$wow} {src}"@ =~= ""@ + "{$"@ + ("wow"@ + "}"@ + " {src}"@));
        fragments_are_sayable(db, "{$wow} {src}"@, ""@, "wow"@, " {src}"@);
    }
    if i == 265 {
        let s = "{$hype}"@;
        assert(DEFAULT_PHRASES@[265].3@ == s);
        reveal_strlit("{$hype}");
        assert("{$hype}"@ =~= ""@ + "{$"@ + ("hype"@ + "}"@ + ""@));
        fragments_are_sayable(db, "{$hype}"@, ""@, "hype"@, ""@);
    }
}

// ── Laws ────────────────────────────────────────────────────────────────────

/// Every template that is known without a file can be said: its marks are closed,
/// and the fragments that it names are known and have words.
pub proof fn default_templates_are_sayable(db: PhraseDb, i: int)
    requires
        db.has_defaults(),
        0 <= i < DEFAULT_PHRASES@.len(),
    ensures
        is_sayable(db, DEFAULT_PHRASES@[i].3@),
{
    if i == 4 || i == 15 || i == 45 || i == 58 || i == 75 || i == 116 || i == 227 || i == 232 || i == 233 || i == 247 || i == 249 || i == 265 {
        marked_rows_are_sayable(db, i);
    } else {
        let s = DEFAULT_PHRASES@[i].3@;
        if i < 31 {
            rows_from_0_are_plain(i);
        } else if i < 62 {
            rows_from_31_are_plain(i);
        } else if i < 93 {
            rows_from_62_are_plain(i);
        } else if i < 124 {
            rows_from_93_are_plain(i);
        } else if i < 155 {
            rows_from_124_are_plain(i);
        } else if i < 186 {
            rows_from_155_are_plain(i);
        } else if i < 217 {
            rows_from_186_are_plain(i);
        } else if i < 248 {
            rows_from_217_are_plain(i);
        } else if i < 279 {
            rows_from_248_are_plain(i);
        } else if i < 310 {
            rows_from_279_are_plain(i);
        } else if i < 341 {
            rows_from_310_are_plain(i);
        } else {
            rows_from_341_are_plain(i);
        }
        plain_templates_are_sayable(db, s);
    }
}

/// Expanding a template that is known without a file leaves no fragment behind,
/// whatever is picked.
pub proof fn default_templates_expand_completely(db: PhraseDb, i: int, picks: Seq<nat>)
    requires
        db.has_defaults(),
        0 <= i < DEFAULT_PHRASES@.len(),
        db.can_pick(phrasebook::chunks(DEFAULT_PHRASES@[i].3@), picks),
    ensures
        phrasebook::position(
            db.assembled(
                phrasebook::chunks(DEFAULT_PHRASES@[i].3@),
                picks,
                phrasebook::chunks(DEFAULT_PHRASES@[i].3@).len(),
            ),
            "{$"@,
        ) is None,
{
    let s = DEFAULT_PHRASES@[i].3@;
    let c = phrasebook::chunks(s);
    default_templates_are_sayable(db, i);
    sayable_chunks_expand(db, s, picks, c.len());
    plain_templates_are_one_chunk(db.assembled(c, picks, c.len()));
}

proof fn sayable_chunks_expand(db: PhraseDb, s: Seq<char>, picks: Seq<nat>, n: nat)
    requires
        is_sayable(db, s),
        db.can_pick(phrasebook::chunks(s), picks),
        n <= phrasebook::chunks(s).len(),
    ensures
        !text::has_char(db.assembled(phrasebook::chunks(s), picks, n), '$'),
    decreases n,
{
    if n > 0 {
        let c = phrasebook::chunks(s);
        sayable_chunks_expand(db, s, picks, (n - 1) as nat);
        let before = db.assembled(c, picks, (n - 1) as nat);
        let next = db.chunk_text(c[n - 1], picks[n - 1]);
        assert(can_be_said(db, c[n - 1]));
        assert(db.within(c[n - 1], picks[n - 1]));
        if let Some(name) = c[n - 1].1 {
            let word = db.fragment(name)->0[picks[n - 1] as int];
            assert(!text::has_char(word, '$'));
            joined_without_dollar(c[n - 1].0, word);
        }
        joined_without_dollar(before, next);
    }
}

proof fn joined_without_dollar(a: Seq<char>, b: Seq<char>)
    requires
        !text::has_char(a, '$'),
        !text::has_char(b, '$'),
    ensures
        !text::has_char(a + b, '$'),
{
    assert forall|i: int| 0 <= i < (a + b).len() implies (a + b)[i] != '$' by {
        if i < a.len() {
            assert((a + b)[i] == a[i]);
        } else {
            assert((a + b)[i] == b[i - a.len()]);
        }
    }
}

/// The phrases that are known without a file answer every trigger, whoever speaks
/// in whatever register.
pub proof fn defaults_answer_every_trigger(
    db: PhraseDb,
    trigger: ChatTrigger,
    arch: Seq<char>,
    reg: Seq<char>,
)
    requires
        db.has_defaults(),
    ensures
        db.candidates(engine::kind_of(trigger), arch, reg).len() > 0,
{
    reveal_strlit("");
    let kind = engine::kind_of(trigger);
    if kind == "MobKilled"@ {
        assert(DEFAULT_PHRASES@[0].0 == "MobKilled");
        assert(DEFAULT_PHRASES@[0].1 == "" && DEFAULT_PHRASES@[0].2 == "");
        rows_fill_their_pool(DEFAULT_PHRASES@, 0);
    }
    if kind == "PlayerDied"@ {
        assert(DEFAULT_PHRASES@[36].0 == "PlayerDied");
        assert(DEFAULT_PHRASES@[36].1 == "" && DEFAULT_PHRASES@[36].2 == "");
        rows_fill_their_pool(DEFAULT_PHRASES@, 36);
    }
    if kind == "NearDeathSave"@ {
        assert(DEFAULT_PHRASES@[54].0 == "NearDeathSave");
        assert(DEFAULT_PHRASES@[54].1 == "" && DEFAULT_PHRASES@[54].2 == "");
        rows_fill_their_pool(DEFAULT_PHRASES@, 54);
    }
    if kind == "PlayerNearDeath"@ {
        assert(DEFAULT_PHRASES@[67].0 == "PlayerNearDeath");
        assert(DEFAULT_PHRASES@[67].1 == "" && DEFAULT_PHRASES@[67].2 == "");
        rows_fill_their_pool(DEFAULT_PHRASES@, 67);
    }
    if kind == "BigHit"@ {
        assert(DEFAULT_PHRASES@[237].0 == "BigHit");
        assert(DEFAULT_PHRASES@[237].1 == "" && DEFAULT_PHRASES@[237].2 == "");
        rows_fill_their_pool(DEFAULT_PHRASES@, 237);
    }
    if kind == "SpellResisted"@ {
        assert(DEFAULT_PHRASES@[76].0 == "SpellResisted");
        assert(DEFAULT_PHRASES@[76].1 == "" && DEFAULT_PHRASES@[76].2 == "");
        rows_fill_their_pool(DEFAULT_PHRASES@, 76);
    }
    if kind == "ResistStreak"@ {
        assert(DEFAULT_PHRASES@[91].0 == "ResistStreak");
        assert(DEFAULT_PHRASES@[91].1 == "" && DEFAULT_PHRASES@[91].2 == "");
        rows_fill_their_pool(DEFAULT_PHRASES@, 91);
    }
    if kind == "Wipe"@ {
        assert(DEFAULT_PHRASES@[97].0 == "Wipe");
        assert(DEFAULT_PHRASES@[97].1 == "" && DEFAULT_PHRASES@[97].2 == "");
        rows_fill_their_pool(DEFAULT_PHRASES@, 97);
    }
    if kind == "CleanStreak"@ {
        assert(DEFAULT_PHRASES@[113].0 == "CleanStreak");
        assert(DEFAULT_PHRASES@[113].1 == "" && DEFAULT_PHRASES@[113].2 == "");
        rows_fill_their_pool(DEFAULT_PHRASES@, 113);
    }
    if kind == "CasterOom"@ {
        assert(DEFAULT_PHRASES@[139].0 == "CasterOom");
        assert(DEFAULT_PHRASES@[139].1 == "" && DEFAULT_PHRASES@[139].2 == "");
        rows_fill_their_pool(DEFAULT_PHRASES@, 139);
    }
    if kind == "Incoming"@ {
        assert(DEFAULT_PHRASES@[121].0 == "Incoming");
        assert(DEFAULT_PHRASES@[121].1 == "" && DEFAULT_PHRASES@[121].2 == "");
        rows_fill_their_pool(DEFAULT_PHRASES@, 121);
    }
    if kind == "RepeatMiss"@ {
        assert(DEFAULT_PHRASES@[224].0 == "RepeatMiss");
        assert(DEFAULT_PHRASES@[224].1 == "" && DEFAULT_PHRASES@[224].2 == "");
        rows_fill_their_pool(DEFAULT_PHRASES@, 224);
    }
    if kind == "GoodLoot"@ {
        assert(DEFAULT_PHRASES@[153].0 == "GoodLoot");
        assert(DEFAULT_PHRASES@[153].1 == "" && DEFAULT_PHRASES@[153].2 == "");
        rows_fill_their_pool(DEFAULT_PHRASES@, 153);
    }
    if kind == "BadLoot"@ {
        assert(DEFAULT_PHRASES@[172].0 == "BadLoot");
        assert(DEFAULT_PHRASES@[172].1 == "" && DEFAULT_PHRASES@[172].2 == "");
        rows_fill_their_pool(DEFAULT_PHRASES@, 172);
    }
    if kind == "LevelUp"@ {
        assert(DEFAULT_PHRASES@[187].0 == "LevelUp");
        assert(DEFAULT_PHRASES@[187].1 == "" && DEFAULT_PHRASES@[187].2 == "");
        rows_fill_their_pool(DEFAULT_PHRASES@, 187);
    }
    if kind == "RlDeparture"@ {
        assert(DEFAULT_PHRASES@[199].0 == "RlDeparture");
        assert(DEFAULT_PHRASES@[199].1 == "" && DEFAULT_PHRASES@[199].2 == "");
        rows_fill_their_pool(DEFAULT_PHRASES@, 199);
    }
    if kind == "RlReturn"@ {
        assert(DEFAULT_PHRASES@[212].0 == "RlReturn");
        assert(DEFAULT_PHRASES@[212].1 == "" && DEFAULT_PHRASES@[212].2 == "");
        rows_fill_their_pool(DEFAULT_PHRASES@, 212);
    }
    if kind == "Generic"@ {
        assert(DEFAULT_PHRASES@[251].0 == "Generic");
        assert(DEFAULT_PHRASES@[251].1 == "" && DEFAULT_PHRASES@[251].2 == "");
        rows_fill_their_pool(DEFAULT_PHRASES@, 251);
    }
    assert(db.phrases(phrasebook::pool_key(kind, None, None)).len() > 0);
}

} // verus!
