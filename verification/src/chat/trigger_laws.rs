//! What holds of triggers, whoever they name: what templates show of them, and
//! who speaks of them.
use vstd::prelude::*;

use crate::chat::context::SituationContext;
use crate::chat::engine::considered;
use crate::chat::engine::corrects;
use crate::chat::engine::event_of;
use crate::chat::engine::expired;
use crate::chat::engine::frustrating;
use crate::chat::engine::kind_of;
use crate::chat::engine::noticed;
use crate::chat::engine::primary_other;
use crate::chat::engine::reason_of;
use crate::chat::engine::spoken;
use crate::chat::engine::tactical;
use crate::chat::engine::trigger_slots;
use crate::chat::engine::turn_messages;
use crate::chat::engine::ChatEngine;
use crate::chat::engine::Turn;
use crate::chat::personality::ExpressionMode;
use crate::chat::phrasebook::filled;
use crate::chat::phrasebook::slot_mark;
use crate::chat::state;
use crate::chat::state::secs_between;
use crate::chat::state::silent_of;
use crate::chat::state::topics_are_told_apart;
use crate::chat::state::{CharacterState, ChatTopic, EmotionalRegister, RlKind, StateView};
use crate::chat::trigger::ChatTrigger;
use crate::text;
use crate::text_laws;

verus! {

// ── Slots ───────────────────────────────────────────────────────────────────

/// Whether the template that is nothing but a slot, its name in braces, shows a
/// value. A value that holds a brace itself can be filled once more, and is left
/// out.
pub open spec fn shows(
    trigger: ChatTrigger,
    me: Seq<char>,
    name: Seq<char>,
    value: Seq<char>,
) -> bool {
    !text::has_char(value, '{') ==> filled(
        seq!['{'] + name + seq!['}'],
        seq![("self"@, me)] + trigger_slots(trigger),
    ) == value
}

spec fn plain_name(name: Seq<char>) -> bool {
    !text::has_char(name, '{') && !text::has_char(name, '}')
}

spec fn is_braced(s: Seq<char>, name: Seq<char>) -> bool {
    &&& s.len() == name.len() + 2
    &&& s[0] == '{'
    &&& s[s.len() - 1] == '}'
    &&& name == s.subrange(1, s.len() - 1)
}

proof fn mark_is_braced(name: Seq<char>)
    ensures
        is_braced(slot_mark(name), name),
{
    reveal_strlit("{");
    reveal_strlit("}");
    assert(name =~= slot_mark(name).subrange(1, slot_mark(name).len() - 1));
}

proof fn marks_that_occur_are_equal(
    s: Seq<char>,
    p: Seq<char>,
    a: Seq<char>,
    b: Seq<char>,
    i: int,
)
    requires
        is_braced(s, a),
        is_braced(p, b),
        plain_name(a),
        text::occurs_at(s, p, i),
    ensures
        a == b,
{
    let t = s.subrange(i, i + p.len());
    assert(t[0] == s[i]);
    assert(s[i] == '{');
    if i > 0 {
        assert(i < s.len() - 1);
        assert(a[i - 1] == s[i]);
        assert(text::has_char(a, '{'));
    }
    let e = p.len() - 1;
    assert(t[e] == s[e]);
    assert(s[e] == '}');
    if e < s.len() - 1 {
        assert(a[e - 1] == s[e]);
        assert(text::has_char(a, '}'));
    }
    assert(s.len() == p.len());
    assert(t =~= s);
}

proof fn marks_are_apart(a: Seq<char>, b: Seq<char>)
    requires
        plain_name(a),
        a != b,
    ensures
        !text_laws::occurs(slot_mark(a), slot_mark(b)),
{
    if text_laws::occurs(slot_mark(a), slot_mark(b)) {
        let i = choose|i: int| #[trigger] text::occurs_at(slot_mark(a), slot_mark(b), i);
        mark_is_braced(a);
        mark_is_braced(b);
        marks_that_occur_are_equal(slot_mark(a), slot_mark(b), a, b, i);
    }
}

proof fn mark_becomes_value(name: Seq<char>, value: Seq<char>)
    ensures
        text::replaced(slot_mark(name), slot_mark(name), value) == value,
{
    reveal_strlit("{");
    reveal_strlit("}");
    let m = slot_mark(name);
    assert(m.subrange(0, m.len() as int) =~= m);
    assert(text::occurs_at(m, m, 0));
    assert(m.skip(m.len() as int) =~= Seq::<char>::empty());
    let none = Seq::<char>::empty();
    assert(text::replaced(none, m, value) == none);
    assert(value + none =~= value);
}

proof fn plain_values_stay(value: Seq<char>, name: Seq<char>, w: Seq<char>)
    requires
        !text::has_char(value, '{'),
    ensures
        text::replaced(value, slot_mark(name), w) == value,
{
    reveal_strlit("{");
    reveal_strlit("}");
    let p = slot_mark(name);
    assert(!text_laws::occurs(value, p)) by {
        if text_laws::occurs(value, p) {
            let i = choose|i: int| #[trigger] text::occurs_at(value, p, i);
            assert(value.subrange(i, i + p.len())[0] == '{');
            assert(value[i] == '{');
        }
    }
    text_laws::absent_texts_are_not_replaced(value, p, w);
}

proof fn filling_shows_the_slot(slots: Seq<(Seq<char>, Seq<char>)>, k: int, n: nat)
    requires
        0 <= k < slots.len(),
        n <= slots.len(),
        plain_name(slots[k].0),
        forall|j: int| 0 <= j < slots.len() && j != k ==> (#[trigger] slots[j]).0 != slots[k].0,
        !text::has_char(slots[k].1, '{'),
    ensures
        filled(slot_mark(slots[k].0), slots.take(n as int)) == if n <= k {
            slot_mark(slots[k].0)
        } else {
            slots[k].1
        },
    decreases n,
{
    let m = slot_mark(slots[k].0);
    if n > 0 {
        let t = slots.take(n as int);
        assert(t.drop_last() =~= slots.take(n - 1));
        assert(t.last() == slots[n - 1]);
        filling_shows_the_slot(slots, k, (n - 1) as nat);
        let s = slots[n - 1];
        if n - 1 < k {
            marks_are_apart(slots[k].0, s.0);
            text_laws::absent_texts_are_not_replaced(m, slot_mark(s.0), s.1);
        } else if n - 1 == k {
            mark_becomes_value(s.0, s.1);
        } else {
            plain_values_stay(slots[k].1, s.0, s.1);
        }
    }
}

proof fn slot_shows(trigger: ChatTrigger, me: Seq<char>, k: int)
    requires
        ({
            let slots = seq![("self"@, me)] + trigger_slots(trigger);
            &&& 0 <= k < slots.len()
            &&& plain_name(slots[k].0)
            &&& forall|j: int|
                0 <= j < slots.len() && j != k ==> (#[trigger] slots[j]).0 != slots[k].0
        }),
    ensures
        ({
            let slots = seq![("self"@, me)] + trigger_slots(trigger);
            shows(trigger, me, slots[k].0, slots[k].1)
        }),
{
    reveal_strlit("{");
    reveal_strlit("}");
    let slots = seq![("self"@, me)] + trigger_slots(trigger);
    let name = slots[k].0;
    assert("{"@ =~= seq!['{']);
    assert("}"@ =~= seq!['}']);
    assert(slot_mark(name) =~= seq!['{'] + name + seq!['}']);
    if !text::has_char(slots[k].1, '{') {
        filling_shows_the_slot(slots, k, slots.len());
        assert(slots.take(slots.len() as int) =~= slots);
    }
}

proof fn decimals_are_plain(n: nat)
    ensures
        !text::has_char(text::decimal(n), '{'),
    decreases n,
{
    if n >= 10 {
        decimals_are_plain(n / 10);
        let d = text::decimal(n / 10);
        let s = d.push(text::digit(n % 10));
        assert(text::decimal(n) == s);
        if text::has_char(s, '{') {
            let i = choose|i: int| 0 <= i < s.len() && s[i] == '{';
            if i < d.len() {
                assert(d[i] == '{');
            }
        }
    }
}

/// A template that names a slot of a trigger shows what the trigger says there:
/// the healer where it asks for the healer, and the one who was healed where it
/// asks for the target. Amounts and counts are shown in decimals. A streak of
/// kills shows how many there were, and someone who is back the first of what
/// they missed.
pub proof fn templates_show_what_the_trigger_says(trigger: ChatTrigger, me: Seq<char>)
    ensures
        match trigger {
            ChatTrigger::MobKilled { mob, killer, .. } => {
                &&& shows(trigger, me, "mob"@, mob@)
                &&& shows(trigger, me, "killer"@, killer@)
            },
            ChatTrigger::PlayerDied { who, cause } => {
                &&& shows(trigger, me, "player"@, who@)
                &&& shows(trigger, me, "cause"@, cause@)
            },
            ChatTrigger::NearDeathSave { healer, target } => {
                &&& shows(trigger, me, "healer"@, healer@)
                &&& shows(trigger, me, "target"@, target@)
            },
            ChatTrigger::PlayerNearDeath { who, .. } => {
                &&& shows(trigger, me, "player"@, who@)
            },
            ChatTrigger::TankLowHp { player, .. } => {
                &&& shows(trigger, me, "player"@, player@)
            },
            ChatTrigger::CasterOom { player } => {
                &&& shows(trigger, me, "player"@, player@)
            },
            ChatTrigger::HealerLowMana { player, .. } => {
                &&& shows(trigger, me, "player"@, player@)
            },
            ChatTrigger::BigHit { src, tgt, dmg, ability } => {
                &&& shows(trigger, me, "src"@, src@)
                &&& shows(trigger, me, "tgt"@, tgt@)
                &&& shows(trigger, me, "dmg"@, text::decimal(dmg as nat))
                &&& shows(trigger, me, "ability"@, ability@)
            },
            ChatTrigger::SpellResisted { caster, mob, spell, nth } => {
                &&& shows(trigger, me, "caster"@, caster@)
                &&& shows(trigger, me, "mob"@, mob@)
                &&& shows(trigger, me, "spell"@, spell@)
                &&& shows(trigger, me, "count"@, text::decimal(nth as nat))
            },
            ChatTrigger::ResistStreak { mob, count } => {
                &&& shows(trigger, me, "mob"@, mob@)
                &&& shows(trigger, me, "count"@, text::decimal(count as nat))
            },
            ChatTrigger::Incoming { count, mob, puller } => {
                &&& shows(trigger, me, "count"@, text::decimal(count as nat))
                &&& shows(trigger, me, "mob"@, mob@)
                &&& shows(trigger, me, "puller"@, puller@)
            },
            ChatTrigger::Add { mob } => {
                &&& shows(trigger, me, "mob"@, mob@)
            },
            ChatTrigger::RepeatMiss { player, mob, count } => {
                &&& shows(trigger, me, "player"@, player@)
                &&& shows(trigger, me, "mob"@, mob@)
                &&& shows(trigger, me, "count"@, text::decimal(count as nat))
            },
            ChatTrigger::GoodLoot { item, recipient } => {
                &&& shows(trigger, me, "item"@, item@)
                &&& shows(trigger, me, "recipient"@, recipient@)
            },
            ChatTrigger::BadLoot { item } => {
                &&& shows(trigger, me, "item"@, item@)
            },
            ChatTrigger::LevelUp { who, level } => {
                &&& shows(trigger, me, "who"@, who@)
                &&& shows(trigger, me, "level"@, text::decimal(level as nat))
            },
            ChatTrigger::CleanStreak { kills } => {
                &&& shows(trigger, me, "count"@, text::decimal(kills as nat))
            },
            ChatTrigger::RlDeparture { who, kind } => {
                &&& shows(trigger, me, "who"@, who@)
                &&& shows(trigger, me, "rl_reason"@, reason_of(kind))
            },
            ChatTrigger::RlReturn { who, missed } => {
                &&& shows(trigger, me, "who"@, who@)
                &&& missed@.len() > 0 ==> shows(trigger, me, "rl_context"@, missed@[0]@)
            },
            _ => true,
        },
        shows(trigger, me, "self"@, me),
{
    reveal_strlit("self");
    match trigger {
        ChatTrigger::MobKilled { mob, killer, .. } => {
            reveal_strlit("mob");
            reveal_strlit("killer");
            assert("self"@.len() != "mob"@.len());
            assert("self"@.len() != "killer"@.len());
            assert("mob"@.len() != "killer"@.len());
            slot_shows(trigger, me, 0);
            slot_shows(trigger, me, 1);
            slot_shows(trigger, me, 2);
        },
        ChatTrigger::PlayerDied { who, cause } => {
            reveal_strlit("player");
            reveal_strlit("cause");
            assert("self"@.len() != "player"@.len());
            assert("self"@.len() != "cause"@.len());
            assert("player"@.len() != "cause"@.len());
            slot_shows(trigger, me, 0);
            slot_shows(trigger, me, 1);
            slot_shows(trigger, me, 2);
        },
        ChatTrigger::NearDeathSave { healer, target } => {
            reveal_strlit("healer");
            reveal_strlit("target");
            assert("self"@.len() != "healer"@.len());
            assert("self"@.len() != "target"@.len());
            assert("healer"@[0] != "target"@[0]);
            slot_shows(trigger, me, 0);
            slot_shows(trigger, me, 1);
            slot_shows(trigger, me, 2);
        },
        ChatTrigger::PlayerNearDeath { who, .. } => {
            reveal_strlit("player");
            assert("self"@.len() != "player"@.len());
            slot_shows(trigger, me, 0);
            slot_shows(trigger, me, 1);
        },
        ChatTrigger::TankLowHp { player, .. } => {
            reveal_strlit("player");
            assert("self"@.len() != "player"@.len());
            slot_shows(trigger, me, 0);
            slot_shows(trigger, me, 1);
        },
        ChatTrigger::CasterOom { player } => {
            reveal_strlit("player");
            assert("self"@.len() != "player"@.len());
            slot_shows(trigger, me, 0);
            slot_shows(trigger, me, 1);
        },
        ChatTrigger::HealerLowMana { player, .. } => {
            reveal_strlit("player");
            assert("self"@.len() != "player"@.len());
            slot_shows(trigger, me, 0);
            slot_shows(trigger, me, 1);
        },
        ChatTrigger::BigHit { src, tgt, dmg, ability } => {
            reveal_strlit("src");
            reveal_strlit("tgt");
            reveal_strlit("dmg");
            reveal_strlit("ability");
            assert("self"@.len() != "src"@.len());
            assert("self"@.len() != "tgt"@.len());
            assert("src"@[0] != "tgt"@[0]);
            assert("self"@.len() != "dmg"@.len());
            assert("src"@[0] != "dmg"@[0]);
            assert("tgt"@[0] != "dmg"@[0]);
            assert("self"@.len() != "ability"@.len());
            assert("src"@.len() != "ability"@.len());
            assert("tgt"@.len() != "ability"@.len());
            assert("dmg"@.len() != "ability"@.len());
            decimals_are_plain(dmg as nat);
            slot_shows(trigger, me, 0);
            slot_shows(trigger, me, 1);
            slot_shows(trigger, me, 2);
            slot_shows(trigger, me, 3);
            slot_shows(trigger, me, 4);
        },
        ChatTrigger::SpellResisted { caster, mob, spell, nth } => {
            reveal_strlit("caster");
            reveal_strlit("mob");
            reveal_strlit("spell");
            reveal_strlit("count");
            assert("self"@.len() != "caster"@.len());
            assert("self"@.len() != "mob"@.len());
            assert("caster"@.len() != "mob"@.len());
            assert("self"@.len() != "spell"@.len());
            assert("caster"@.len() != "spell"@.len());
            assert("mob"@.len() != "spell"@.len());
            assert("self"@.len() != "count"@.len());
            assert("caster"@.len() != "count"@.len());
            assert("mob"@.len() != "count"@.len());
            assert("spell"@[0] != "count"@[0]);
            decimals_are_plain(nth as nat);
            slot_shows(trigger, me, 0);
            slot_shows(trigger, me, 1);
            slot_shows(trigger, me, 2);
            slot_shows(trigger, me, 3);
            slot_shows(trigger, me, 4);
        },
        ChatTrigger::ResistStreak { mob, count } => {
            reveal_strlit("mob");
            reveal_strlit("count");
            assert("self"@.len() != "mob"@.len());
            assert("self"@.len() != "count"@.len());
            assert("mob"@.len() != "count"@.len());
            decimals_are_plain(count as nat);
            slot_shows(trigger, me, 0);
            slot_shows(trigger, me, 1);
            slot_shows(trigger, me, 2);
        },
        ChatTrigger::Incoming { count, mob, puller } => {
            reveal_strlit("count");
            reveal_strlit("mob");
            reveal_strlit("puller");
            assert("self"@.len() != "count"@.len());
            assert("self"@.len() != "mob"@.len());
            assert("count"@.len() != "mob"@.len());
            assert("self"@.len() != "puller"@.len());
            assert("count"@.len() != "puller"@.len());
            assert("mob"@.len() != "puller"@.len());
            decimals_are_plain(count as nat);
            slot_shows(trigger, me, 0);
            slot_shows(trigger, me, 1);
            slot_shows(trigger, me, 2);
            slot_shows(trigger, me, 3);
        },
        ChatTrigger::Add { mob } => {
            reveal_strlit("mob");
            assert("self"@.len() != "mob"@.len());
            slot_shows(trigger, me, 0);
            slot_shows(trigger, me, 1);
        },
        ChatTrigger::RepeatMiss { player, mob, count } => {
            reveal_strlit("player");
            reveal_strlit("mob");
            reveal_strlit("count");
            assert("self"@.len() != "player"@.len());
            assert("self"@.len() != "mob"@.len());
            assert("player"@.len() != "mob"@.len());
            assert("self"@.len() != "count"@.len());
            assert("player"@.len() != "count"@.len());
            assert("mob"@.len() != "count"@.len());
            decimals_are_plain(count as nat);
            slot_shows(trigger, me, 0);
            slot_shows(trigger, me, 1);
            slot_shows(trigger, me, 2);
            slot_shows(trigger, me, 3);
        },
        ChatTrigger::GoodLoot { item, recipient } => {
            reveal_strlit("item");
            reveal_strlit("recipient");
            assert("self"@[0] != "item"@[0]);
            assert("self"@.len() != "recipient"@.len());
            assert("item"@.len() != "recipient"@.len());
            slot_shows(trigger, me, 0);
            slot_shows(trigger, me, 1);
            slot_shows(trigger, me, 2);
        },
        ChatTrigger::BadLoot { item } => {
            reveal_strlit("item");
            assert("self"@[0] != "item"@[0]);
            slot_shows(trigger, me, 0);
            slot_shows(trigger, me, 1);
        },
        ChatTrigger::LevelUp { who, level } => {
            reveal_strlit("who");
            reveal_strlit("level");
            assert("self"@.len() != "who"@.len());
            assert("self"@.len() != "level"@.len());
            assert("who"@.len() != "level"@.len());
            decimals_are_plain(level as nat);
            slot_shows(trigger, me, 0);
            slot_shows(trigger, me, 1);
            slot_shows(trigger, me, 2);
        },
        ChatTrigger::CleanStreak { kills } => {
            reveal_strlit("count");
            assert("self"@.len() != "count"@.len());
            decimals_are_plain(kills as nat);
            slot_shows(trigger, me, 0);
            slot_shows(trigger, me, 1);
        },
        ChatTrigger::RlDeparture { who, .. } => {
            reveal_strlit("who");
            reveal_strlit("rl_reason");
            assert("self"@.len() != "who"@.len());
            assert("self"@.len() != "rl_reason"@.len());
            assert("who"@.len() != "rl_reason"@.len());
            slot_shows(trigger, me, 0);
            slot_shows(trigger, me, 1);
            slot_shows(trigger, me, 2);
        },
        ChatTrigger::RlReturn { who, missed } => {
            reveal_strlit("who");
            reveal_strlit("rl_context");
            assert("self"@.len() != "who"@.len());
            assert("self"@.len() != "rl_context"@.len());
            assert("who"@.len() != "rl_context"@.len());
            slot_shows(trigger, me, 0);
            slot_shows(trigger, me, 1);
            slot_shows(trigger, me, 2);
        },
        _ => {
            slot_shows(trigger, me, 0);
        },
    }
}

// ── Who speaks ──────────────────────────────────────────────────────────────

/// Nobody comments on what they did themselves: a kill, a save, a big hit, a new
/// level, misses or low health of their own. Of everything else, and of what
/// others did, everyone can speak.
pub proof fn nobody_praises_themselves(trigger: ChatTrigger, name: Seq<char>)
    ensures
        trigger matches ChatTrigger::MobKilled { killer, .. } ==> (considered(trigger, name) <==> name
            != killer@),
        trigger matches ChatTrigger::NearDeathSave { healer, .. } ==> (considered(trigger, name)
            <==> name != healer@),
        trigger matches ChatTrigger::BigHit { src, .. } ==> (considered(trigger, name) <==> name
            != src@),
        trigger matches ChatTrigger::LevelUp { who, .. } ==> (considered(trigger, name) <==> name
            != who@),
        trigger matches ChatTrigger::TankLowHp { player, .. } ==> (considered(trigger, name)
            <==> name != player@),
        trigger matches ChatTrigger::RepeatMiss { player, .. } ==> (considered(trigger, name)
            <==> name != player@),
        !(trigger is MobKilled || trigger is NearDeathSave || trigger is BigHit
            || trigger is LevelUp || trigger is TankLowHp || trigger is RepeatMiss)
            ==> considered(trigger, name),
{
}

/// Whom a character thinks of at a save or a hit is the other one of the two;
/// a bystander thinks of the healer, or of who hit. At a kill it is the killer,
/// at a departure or a return whoever leaves or is back.
pub proof fn others_are_seen_from_ones_own_side(trigger: ChatTrigger, name: Seq<char>)
    ensures
        trigger matches ChatTrigger::NearDeathSave { healer, target } ==> {
            let other = primary_other(trigger, name);
            &&& other == Some(healer@) || other == Some(target@)
            &&& healer@ != target@ ==> other != Some(name)
            &&& name != healer@ && name != target@ ==> other == Some(healer@)
        },
        trigger matches ChatTrigger::BigHit { src, tgt, .. } ==> {
            let other = primary_other(trigger, name);
            &&& other == Some(src@) || other == Some(tgt@)
            &&& src@ != tgt@ ==> other != Some(name)
            &&& name != src@ && name != tgt@ ==> other == Some(src@)
        },
        trigger matches ChatTrigger::MobKilled { killer, .. } ==> primary_other(trigger, name)
            == Some(killer@),
        trigger matches ChatTrigger::RlDeparture { who, .. } ==> primary_other(trigger, name)
            == Some(who@),
        trigger matches ChatTrigger::RlReturn { who, .. } ==> primary_other(trigger, name) == Some(
            who@,
        ),
        primary_other(trigger, name) is Some ==> trigger is NearDeathSave || trigger is BigHit
            || trigger is MobKilled || trigger is RlDeparture || trigger is RlReturn,
{
}

// ── What triggers mean ──────────────────────────────────────────────────────

/// Nothing is more urgent than a death, a wipe or a tank about to fall, and
/// nothing less than idling. A longer streak is at least as urgent as a shorter
/// one, and more so from the third resist and the second death on.
pub proof fn emergencies_are_most_urgent(a: ChatTrigger, b: ChatTrigger)
    ensures
        (a is Wipe || a is PlayerDied || a is TankLowHp) ==> b.spec_urgency() <= a.spec_urgency(),
        (a is Wipe || a is PlayerDied || a is TankLowHp) && !(b is Wipe || b is PlayerDied
            || b is TankLowHp) ==> b.spec_urgency() < a.spec_urgency(),
        a is Idle ==> a.spec_urgency() == 0,
        a is Idle && !(b is Idle) ==> a.spec_urgency() < b.spec_urgency(),
        a.spec_urgency() <= 3,
        a is ResistStreak && b is ResistStreak && a->ResistStreak_count <= b->ResistStreak_count ==> {
            &&& a.spec_urgency() <= b.spec_urgency()
            &&& a->ResistStreak_count < 3 <= b->ResistStreak_count ==> a.spec_urgency() < b.spec_urgency()
        },
        a is DeathStreak && b is DeathStreak && a->DeathStreak_count <= b->DeathStreak_count ==> {
            &&& a.spec_urgency() <= b.spec_urgency()
            &&& a->DeathStreak_count < 2 <= b->DeathStreak_count ==> a.spec_urgency() < b.spec_urgency()
        },
        (a is NearDeathSave || a is PlayerNearDeath || a is LevelUp || a is GoodLoot) && (
        b is MobKilled || b is BadLoot || b is Incoming || b is SpellResisted || b is RepeatMiss
            || b is BigHit || b is RlDeparture || b is RlReturn || b is CleanStreak
            || b is CasterOom || b is HealerLowMana || b is Add || b is ReactTo)
            ==> a.spec_urgency() > b.spec_urgency() && b.spec_urgency() == 1,
{
}

/// What an event builds up pressure on is the topic under which its trigger is
/// spoken of, so that speaking lets off the pressure that the trigger built up.
pub proof fn pressure_builds_on_the_triggers_topic(trigger: ChatTrigger)
    ensures
        event_of(trigger) matches Some(e) ==> e.spec_counted() matches Some(t)
            ==> trigger.spec_topic() == Some(t),
        trigger is MobKilled || trigger is PlayerDied || trigger is SpellResisted
            || trigger is ResistStreak || trigger is GoodLoot || trigger is BadLoot ==> event_of(
            trigger,
        ) is Some && event_of(trigger)->0.spec_counted() is Some,
{
}

/// Frustrating are just those triggers whose event raises frustration and that
/// call for no action.
pub proof fn frustrating_triggers_raise_frustration(trigger: ChatTrigger)
    ensures
        frustrating(trigger) <==> !tactical(trigger) && event_of(trigger) is Some && event_of(
            trigger,
        )->0.spec_shift().frustration > 0,
{
}

/// Good news lifts morale and never frustrates; bad news never lifts morale and
/// does frustrate. A wipe is worse than a death, a death worse than a resist,
/// and a new level better than anything else.
pub proof fn moods_follow_the_news(good: ChatTrigger, bad: ChatTrigger)
    requires
        good is MobKilled || good is GoodLoot || good is LevelUp || good is CleanStreak,
        bad is PlayerDied || bad is Wipe || bad is SpellResisted || bad is ResistStreak
            || bad is BadLoot || bad is PlayerNearDeath || bad is TankLowHp,
    ensures
        event_of(good) is Some,
        event_of(bad) is Some,
        event_of(good)->0.spec_shift().morale > 0,
        event_of(good)->0.spec_shift().frustration <= 0,
        event_of(bad)->0.spec_shift().morale <= 0,
        event_of(bad)->0.spec_shift().frustration > 0,
        good is LevelUp ==> forall|t: ChatTrigger|
            (#[trigger] event_of(t)) is Some && !(t is LevelUp) ==> event_of(
                t,
            )->0.spec_shift().morale < event_of(good)->0.spec_shift().morale && event_of(
                t,
            )->0.spec_shift().frustration > event_of(good)->0.spec_shift().frustration,
        bad is Wipe ==> forall|t: ChatTrigger|
            (#[trigger] event_of(t)) is Some && !(t is Wipe) ==> event_of(t)->0.spec_shift().morale
                > event_of(bad)->0.spec_shift().morale && event_of(t)->0.spec_shift().frustration
                < event_of(bad)->0.spec_shift().frustration,
        bad is PlayerDied ==> event_of(bad)->0.spec_shift().morale < 0,
        (good is MobKilled) ==> event_of(good)->0.spec_shift().engagement > 0,
        (bad is PlayerNearDeath || bad is TankLowHp) ==> event_of(
            bad,
        )->0.spec_shift().engagement > 0,
{
}

/// Triggers of the same matter share a topic, and so a cooldown; those of
/// different matters do not.
pub proof fn matters_have_their_own_topics(a: ChatTrigger, b: ChatTrigger)
    ensures
        (a is MobKilled || a is CleanStreak) ==> a.spec_topic() == Some(ChatTopic::Slay),
        (a is PlayerDied || a is Wipe) ==> a.spec_topic() == Some(ChatTopic::Death),
        (a is PlayerNearDeath || a is TankLowHp) ==> a.spec_topic() == Some(ChatTopic::NearDeath),
        (a is SpellResisted || a is ResistStreak) ==> a.spec_topic() == Some(ChatTopic::Resist),
        (a is HealerLowMana || a is CasterOom) ==> a.spec_topic() == Some(ChatTopic::LowMana),
        (a is GoodLoot || a is BadLoot) ==> a.spec_topic() == Some(ChatTopic::Loot),
        (a is RlDeparture || a is RlReturn) ==> a.spec_topic() == Some(ChatTopic::RealLife),
        a is LevelUp ==> a.spec_topic() == Some(ChatTopic::LevelUp),
        a is Incoming ==> a.spec_topic() == Some(ChatTopic::Incoming),
        a is Idle ==> a.spec_topic() == Some(ChatTopic::Banter),
        (a is BigHit || a is NearDeathSave || a is ReactTo || a is DeathStreak || a is Add
            || a is RepeatMiss) ==> a.spec_topic() is None,
{
}

// ── Time ────────────────────────────────────────────────────────────────────

/// Whole seconds are counted down: a second counts once it has passed.
pub proof fn seconds_count_once_they_passed(earlier: u64, later: u64)
    requires
        earlier <= later,
    ensures
        earlier + 1_000_000_000 * secs_between(earlier, later) <= later,
        later < earlier + 1_000_000_000 * (secs_between(earlier, later) + 1),
        secs_between(later, earlier) == 0,
{
}

/// Speaking of a trigger starts the cooldown of its topic, for as many seconds as
/// the topic has, and lets off its pressure. Other topics stay as they were.
pub proof fn speaking_starts_the_cooldown<F>(
    s: CharacterState<F>,
    after: CharacterState<F>,
    trigger: ChatTrigger,
    hash: u64,
    then: u64,
    now: u64,
    secs: u64,
    other: ChatTopic,
)
    requires
        after@ == spoken(s@, trigger, hash, then),
        then <= now,
    ensures
        after@.last_spoke == Some(then),
        after@.phrases.len() > 0 && after@.phrases.last() == hash,
        after@.rl_active == s@.rl_active,
        after@.mood == s@.mood,
        trigger.spec_topic() matches Some(topic) ==> {
            &&& after.cooling(topic, secs, now) <==> now < then + 1_000_000_000 * secs
            &&& silent_of(after@.counts, topic) == 0
        },
        trigger.spec_topic() != Some(other) ==> {
            &&& after.cooling(other, secs, now) == s.cooling(other, secs, now)
            &&& silent_of(after@.counts, other) == silent_of(s@.counts, other)
        },
{
    topics_are_told_apart(other, trigger.spec_topic()->0);
    if trigger.spec_topic() is Some {
        let topic = trigger.spec_topic()->0;
        assert(after.topic_cooldowns@ == after@.cooldowns);
        assert(after@.cooldowns == s@.cooldowns.insert(topic.spec_number(), then));
        seconds_count_once_they_passed(then, now);
        let d = secs_between(then, now);
        assert((d < secs) <==> now < then + 1_000_000_000 * secs);
    }
}

/// Noticing an event adds one to the pressure of its topic, and to no other.
pub proof fn noticing_counts_one<F>(
    s: StateView<F>,
    name: Seq<char>,
    trigger: ChatTrigger,
    now: u64,
    topic: ChatTopic,
)
    requires
        silent_of(s.counts, topic) < u32::MAX,
    ensures
        ({
            let after = noticed(s, name, trigger, now);
            let more = silent_of(after.counts, topic) - silent_of(s.counts, topic);
            &&& more == 0 || more == 1
            &&& (trigger is MobKilled || trigger is PlayerDied || trigger is SpellResisted
                || trigger is ResistStreak || trigger is GoodLoot || trigger is BadLoot) ==> (more
                == 1 <==> trigger.spec_topic() == Some(topic))
            &&& !(trigger is MobKilled || trigger is PlayerDied || trigger is SpellResisted
                || trigger is ResistStreak || trigger is GoodLoot || trigger is BadLoot) ==> more
                == 0
            &&& after.cooldowns == s.cooldowns
            &&& after.phrases == s.phrases
            &&& after.last_spoke == s.last_spoke
        }),
{
    if event_of(trigger) is Some && event_of(trigger)->0.spec_counted() is Some {
        topics_are_told_apart(topic, event_of(trigger)->0.spec_counted()->0);
    }
}

/// Whoever steps away is away from then on, for as long as such an interruption
/// lasts; it ends by itself at that time, or when they say that they are back.
/// Nobody else's departure or return counts for them.
pub proof fn absences_last_as_long_as_expected<F>(
    s: StateView<F>,
    who: String,
    kind: RlKind,
    missed: Vec<String>,
    then: u64,
    now: u64,
    name: Seq<char>,
)
    requires
        then <= now,
    ensures
        ({
            let away = noticed(s, name, ChatTrigger::RlDeparture { who, kind }, then);
            let back = noticed(s, name, ChatTrigger::RlReturn { who, missed }, then);
            &&& name == who@ ==> away.rl_active is Some && away.rl_active->0.kind == kind
            &&& name == who@ ==> (expired(away, now).rl_active is None <==> then + 1_000_000_000
                * kind.spec_duration() <= now)
            &&& name == who@ ==> (expired(away, now).rl_active is Some ==> expired(away, now)
                == away)
            &&& name == who@ ==> back.rl_active is None
            &&& name != who@ ==> away == s && back == s
        }),
{
    seconds_count_once_they_passed(then, now);
    let d = secs_between(then, now);
    assert((d >= kind.spec_duration()) <==> then + 1_000_000_000 * kind.spec_duration() <= now);
}

/// The weights of the interruptions make up a hundred.
pub proof fn weights_are_percentages()
    ensures
        RlKind::Food.spec_weight() + RlKind::Bathroom.spec_weight() + RlKind::Phone.spec_weight()
            + RlKind::Family.spec_weight() + RlKind::Pet.spec_weight()
            + RlKind::Chores.spec_weight() + RlKind::Distraction.spec_weight() == 100,
{
}

// ── What decides whether somebody speaks ────────────────────────────────────

/// Deaths, wipes and a tank about to fall break through every cooldown. Whoever
/// expresses themselves in action holds back unless there is something to act on;
/// nobody else does. Who is away is distracted.
pub proof fn emergencies_break_the_silence<F: Copy, B>(
    e: ChatEngine<F, B>,
    i: int,
    trigger: ChatTrigger,
    now: u64,
)
    requires
        0 <= i < e.characters@.len(),
    ensures
        ({
            let f = e.facts(i, trigger, now);
            let c = e.characters@[i];
            &&& (trigger is Wipe || trigger is PlayerDied || trigger is TankLowHp)
                ==> !f.on_cooldown
            &&& (trigger is Incoming || trigger is Add || trigger is PlayerNearDeath
                || trigger is TankLowHp || trigger is HealerLowMana || trigger is CasterOom)
                ==> !f.holds_back
            &&& f.holds_back ==> c.profile.expression_mode == ExpressionMode::Action
            &&& (trigger is MobKilled || trigger is GoodLoot || trigger is BadLoot
                || trigger is LevelUp || trigger is Idle || trigger is BigHit
                || trigger is NearDeathSave || trigger is Wipe || trigger is PlayerDied)
                && c.profile.expression_mode == ExpressionMode::Action ==> f.holds_back
            &&& f.distracted <==> c.state@.rl_active is Some
            &&& f.pressure is None <==> trigger.spec_topic() is None
            &&& f.on_cooldown ==> trigger.spec_topic() is Some && c.state.cooling(
                trigger.spec_topic()->0,
                trigger.spec_topic()->0.spec_cooldown(),
                now,
            )
            &&& trigger.spec_topic() is Some && trigger.spec_urgency() < 3 && c.state.cooling(
                trigger.spec_topic()->0,
                trigger.spec_topic()->0.spec_cooldown(),
                now,
            ) ==> f.on_cooldown
            &&& trigger.spec_topic() matches Some(t) ==> f.pressure == Some(
                silent_of(c.state@.counts, t),
            )
        }),
{
}

/// A kill that was just seen adds one to what presses everyone to speak of kills,
/// and the same holds of deaths, resists and loot.
pub proof fn silence_builds_up_pressure<F: Copy, B>(
    before: ChatEngine<F, B>,
    after: ChatEngine<F, B>,
    i: int,
    trigger: ChatTrigger,
    now: u64,
)
    requires
        0 <= i < before.characters@.len(),
        i < after.characters@.len(),
        trigger is MobKilled || trigger is PlayerDied || trigger is SpellResisted
            || trigger is ResistStreak || trigger is GoodLoot || trigger is BadLoot,
        before.facts(i, trigger, now).pressure matches Some(n) && n < u32::MAX,
        after.characters@[i].state@ == noticed(
            before.characters@[i].state@,
            before.characters@[i].name@,
            trigger,
            now,
        ),
    ensures
        after.facts(i, trigger, now).pressure is Some,
        after.facts(i, trigger, now).pressure->0 == before.facts(i, trigger, now).pressure->0 + 1,
{
    let s = before.characters@[i].state@;
    noticing_counts_one(
        s,
        before.characters@[i].name@,
        trigger,
        now,
        trigger.spec_topic()->0,
    );
}

/// What a backend is told of a relationship is how the speaker stands to the
/// other, not the other to the speaker; and it is told of the speaker's own
/// character and mood.
pub proof fn contexts_take_the_speakers_side<F: Copy, B>(
    e: ChatEngine<F, B>,
    i: int,
    trigger: ChatTrigger,
    register: EmotionalRegister,
    ctx: SituationContext<F>,
    other: Seq<char>,
)
    requires
        0 <= i < e.characters@.len(),
        e.is_context(i, trigger, register, ctx),
        trigger matches ChatTrigger::RlDeparture { who, .. } && who@ == other,
    ensures
        e.relationships@.dom().contains(seq![e.characters@[i].name@, other]) ==> ctx.relationship
            == Some(e.relationships@[seq![e.characters@[i].name@, other]].dynamic),
        !e.relationships@.dom().contains(seq![e.characters@[i].name@, other])
            ==> ctx.relationship is None,
        ctx.register == register,
        ctx.archetype == e.characters@[i].profile.archetype,
        ctx.patience == e.characters@[i].profile.patience,
        ctx.humor == e.characters@[i].profile.humor,
        ctx.verbosity == e.characters@[i].profile.verbosity,
        ctx.frustration == e.characters@[i].state@.mood.frustration,
        ctx.morale == e.characters@[i].state@.mood.morale,
        ctx.fatigue == e.characters@[i].state@.mood.fatigue,
{
}

/// Topics of the moment may come up again sooner than those of idle hours.
pub proof fn pressing_topics_come_up_sooner()
    ensures
        ChatTopic::LevelUp.spec_cooldown() < ChatTopic::Incoming.spec_cooldown()
            < ChatTopic::Wipe.spec_cooldown() < ChatTopic::NearDeath.spec_cooldown()
            < ChatTopic::Death.spec_cooldown() < ChatTopic::LowMana.spec_cooldown()
            < ChatTopic::Resist.spec_cooldown() < ChatTopic::Slay.spec_cooldown()
            < ChatTopic::Loot.spec_cooldown() < ChatTopic::Banter.spec_cooldown()
            < ChatTopic::RealLife.spec_cooldown(),
        ChatTopic::CleanStreak.spec_cooldown() == ChatTopic::RealLife.spec_cooldown(),
        ChatTopic::Loot.spec_cooldown() == 60,
        ChatTopic::Resist.spec_cooldown() * 2 == ChatTopic::Loot.spec_cooldown(),
        ChatTopic::Slay.spec_cooldown() * 2 == ChatTopic::Banter.spec_cooldown(),
        ChatTopic::Banter.spec_cooldown() + ChatTopic::Resist.spec_cooldown()
            == ChatTopic::RealLife.spec_cooldown(),
        ChatTopic::RealLife.spec_cooldown() == 2 * ChatTopic::Loot.spec_cooldown(),
{
}

/// Phrases are looked up under a trigger's own name; only a tank in danger is
/// spoken of as anybody else in danger, a healer without mana as any caster
/// without, and an addition as a pull. What has no phrases of its own is generic.
pub proof fn triggers_are_known_by_their_name(t: ChatTrigger)
    ensures
        t is MobKilled ==> kind_of(t) == "MobKilled"@,
        t is PlayerDied ==> kind_of(t) == "PlayerDied"@,
        t is NearDeathSave ==> kind_of(t) == "NearDeathSave"@,
        t is PlayerNearDeath || t is TankLowHp ==> kind_of(t) == "PlayerNearDeath"@,
        t is BigHit ==> kind_of(t) == "BigHit"@,
        t is SpellResisted ==> kind_of(t) == "SpellResisted"@,
        t is ResistStreak ==> kind_of(t) == "ResistStreak"@,
        t is Wipe ==> kind_of(t) == "Wipe"@,
        t is CleanStreak ==> kind_of(t) == "CleanStreak"@,
        t is CasterOom || t is HealerLowMana ==> kind_of(t) == "CasterOom"@,
        t is Incoming || t is Add ==> kind_of(t) == "Incoming"@,
        t is RepeatMiss ==> kind_of(t) == "RepeatMiss"@,
        t is GoodLoot ==> kind_of(t) == "GoodLoot"@,
        t is BadLoot ==> kind_of(t) == "BadLoot"@,
        t is LevelUp ==> kind_of(t) == "LevelUp"@,
        t is RlDeparture ==> kind_of(t) == "RlDeparture"@,
        t is RlReturn ==> kind_of(t) == "RlReturn"@,
        t is Idle || t is ReactTo || t is DeathStreak || t is CurrencyDrop || t is RlDistraction
            || t is PlayerJoined || t is PlayerLeft || t is LongSession ==> kind_of(t)
            == "Generic"@,
{
}

/// What a turn leads to is said by its own speaker, in the channel that was asked
/// for, as it was chosen, and after the turn's delay; a correction goes with it
/// and is due two to eight seconds later.
pub proof fn turns_say_what_was_chosen(turn: Turn, channel: Seq<char>, now: u64)
    requires
        turn.text is Some,
        now + turn.delay <= u64::MAX,
        turn.correction is Some ==> corrects(turn.correction->0@, turn, now),
    ensures
        ({
            let said = turn_messages(turn, channel, now);
            let m = said.last();
            &&& said.len() == if turn.correction is Some {
                2int
            } else {
                1int
            }
            &&& m.emit_at - now == turn.delay
            &&& m.speaker == turn.name@
            &&& m.channel == channel
            &&& m.text == turn.text->0@
            &&& turn.correction is Some ==> {
                &&& said[0].speaker == m.speaker
                &&& m.emit_at + 2_000_000_000 <= said[0].emit_at <= m.emit_at + 8_000_000_000
            }
        }),
{
    if turn.correction is Some {
        let c = turn.correction->0@;
        let gap = choose|gap: u64|
            2 <= gap <= 8 && #[trigger] (gap * state::SECOND) == c.emit_at - now - turn.delay;
        assert(2 <= gap <= 8);
    }
}

} // verus!
