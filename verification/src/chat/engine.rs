//! The chat engine: who speaks when something happens, what they are told of
//! it, and when their messages are due.
use rand::rngs::StdRng;
use std::collections::VecDeque;
use std::hash::BuildHasher;
use vstd::multiset::Multiset;
use vstd::prelude::*;

use crate::chat::backend::{ChatBackend, PhrasebookBackend};
use crate::chat::context;
use crate::chat::context::{SituationContext, Slot};
use crate::chat::dice;
use crate::chat::personality::{ExpressionMode, PersonalityProfile};
use crate::chat::phrasebook::PhraseDb;
use crate::chat::relationship;
use crate::chat::relationship::{RelDynamic, Relationship, RelationshipGraph};
use crate::chat::state;
use crate::chat::state::{
    CharacterState, ChatTopic, EmotionalRegister, GameEvent, Mood, RlEvent, RlKind, StateView,
};
use crate::chat::style;
use crate::chat::trigger::ChatTrigger;
use crate::maps;
use crate::maps::Ranked;
use crate::text;

verus! {

/// A character: who they are and what they remember.
pub struct Character<F> {
    pub name: String,
    pub profile: PersonalityProfile<F>,
    pub state: CharacterState<F>,
}

/// A message scheduled for future emission.
pub struct PendingMessage {
    /// When it is due, in nanoseconds.
    pub emit_at: u64,
    pub speaker: String,
    pub channel: String,
    pub text: String,
}

/// A message ready to emit now.
pub struct EmittedMessage {
    pub speaker: String,
    pub channel: String,
    pub text: String,
}

/// What a message holds.
pub struct MessageView {
    pub emit_at: u64,
    pub speaker: Seq<char>,
    pub channel: Seq<char>,
    pub text: Seq<char>,
}

impl View for PendingMessage {
    type V = MessageView;

    open spec fn view(&self) -> MessageView {
        MessageView {
            emit_at: self.emit_at,
            speaker: self.speaker@,
            channel: self.channel@,
            text: self.text@,
        }
    }
}

/// What messages hold.
pub open spec fn message_views(v: Seq<PendingMessage>) -> Seq<MessageView> {
    v.map_values(|m: PendingMessage| m@)
}

impl Ranked for PendingMessage {
    /// The sooner a message is due, the higher it ranks.
    open spec fn rank(&self) -> nat {
        (u64::MAX - self.emit_at) as nat
    }

    fn rank_of(&self) -> (r: u128) {
        (u64::MAX - self.emit_at) as u128
    }
}

/// The characters, who they are to each other, where their phrases come from,
/// and the messages that are not due yet.
pub struct ChatEngine<F, B> {
    /// No two have the same name.
    pub characters: Vec<Character<F>>,
    pub relationships: RelationshipGraph,
    pub backend: B,
    pub rng: StdRng,
    /// In the order in which they are due.
    pub pending: VecDeque<PendingMessage>,
    /// When emotions last decayed, in nanoseconds.
    pub last_decay: u64,
}

/// The names of characters.
pub open spec fn names_of<F>(cs: Seq<Character<F>>) -> Seq<Seq<char>> {
    cs.map_values(|c: Character<F>| c.name@)
}

/// The personalities of characters.
pub open spec fn profiles_of<F>(cs: Seq<Character<F>>) -> Seq<PersonalityProfile<F>> {
    cs.map_values(|c: Character<F>| c.profile)
}

/// What characters remember.
pub open spec fn states_of<F>(cs: Seq<Character<F>>) -> Seq<StateView<F>> {
    cs.map_values(|c: Character<F>| c.state@)
}

/// Where a name first stands.
pub open spec fn place(names: Seq<Seq<char>>, name: Seq<char>) -> Option<int>
    decreases names.len(),
{
    if names.len() == 0 {
        None
    } else if place(names.drop_last(), name) is Some {
        place(names.drop_last(), name)
    } else if names.last() == name {
        Some(names.len() - 1)
    } else {
        None
    }
}

/// A place is one where the name stands, and a name without a place stands
/// nowhere.
proof fn place_holds(names: Seq<Seq<char>>, name: Seq<char>)
    ensures
        match place(names, name) {
            Some(i) => 0 <= i < names.len() && names[i] == name,
            None => forall|i: int| 0 <= i < names.len() ==> names[i] != name,
        },
    decreases names.len(),
{
    if names.len() > 0 {
        place_holds(names.drop_last(), name);
        if place(names, name) is None {
            assert forall|i: int| 0 <= i < names.len() implies names[i] != name by {
                if i < names.len() - 1 {
                    assert(names.drop_last()[i] == names[i]);
                }
            }
        }
    }
}

proof fn place_of_prefix(names: Seq<Seq<char>>, n: int, name: Seq<char>)
    requires
        0 <= n <= names.len(),
        place(names.take(n), name) is Some,
    ensures
        place(names, name) == place(names.take(n), name),
    decreases names.len(),
{
    if n == names.len() {
        assert(names.take(n) =~= names);
    } else {
        assert(names.drop_last().take(n) =~= names.take(n));
        place_of_prefix(names.drop_last(), n, name);
    }
}

/// Whether no name stands twice.
pub open spec fn all_different(names: Seq<Seq<char>>) -> bool {
    forall|i: int, j: int| 0 <= i < j < names.len() ==> names[i] != names[j]
}

// ── Triggers ────────────────────────────────────────────────────────────────

/// What a trigger means for everyone's mood.
pub open spec fn event_of(trigger: ChatTrigger) -> Option<GameEvent> {
    match trigger {
        ChatTrigger::MobKilled { .. } => Some(GameEvent::Slay),
        ChatTrigger::PlayerDied { .. } => Some(GameEvent::Death),
        ChatTrigger::Wipe => Some(GameEvent::Wipe),
        ChatTrigger::SpellResisted { .. } => Some(GameEvent::Resist),
        ChatTrigger::ResistStreak { .. } => Some(GameEvent::Resist),
        ChatTrigger::GoodLoot { .. } => Some(GameEvent::GoodLoot),
        ChatTrigger::BadLoot { .. } => Some(GameEvent::BadLoot),
        ChatTrigger::LevelUp { .. } => Some(GameEvent::LevelUp),
        ChatTrigger::PlayerNearDeath { .. } => Some(GameEvent::NearDeath),
        ChatTrigger::TankLowHp { .. } => Some(GameEvent::NearDeath),
        ChatTrigger::CleanStreak { .. } => Some(GameEvent::CleanStreak),
        _ => None,
    }
}

/// What a trigger means for everyone's mood.
pub fn game_event(trigger: &ChatTrigger) -> (r: Option<GameEvent>)
    ensures
        r == event_of(*trigger),
{
    match trigger {
        ChatTrigger::MobKilled { .. } => Some(GameEvent::Slay),
        ChatTrigger::PlayerDied { .. } => Some(GameEvent::Death),
        ChatTrigger::Wipe => Some(GameEvent::Wipe),
        ChatTrigger::SpellResisted { .. } => Some(GameEvent::Resist),
        ChatTrigger::ResistStreak { .. } => Some(GameEvent::Resist),
        ChatTrigger::GoodLoot { .. } => Some(GameEvent::GoodLoot),
        ChatTrigger::BadLoot { .. } => Some(GameEvent::BadLoot),
        ChatTrigger::LevelUp { .. } => Some(GameEvent::LevelUp),
        ChatTrigger::PlayerNearDeath { .. } => Some(GameEvent::NearDeath),
        ChatTrigger::TankLowHp { .. } => Some(GameEvent::NearDeath),
        ChatTrigger::CleanStreak { .. } => Some(GameEvent::CleanStreak),
        _ => None,
    }
}

/// Whether a trigger calls for action.
pub open spec fn tactical(trigger: ChatTrigger) -> bool {
    ||| trigger is Incoming
    ||| trigger is PlayerNearDeath
    ||| trigger is TankLowHp
    ||| trigger is HealerLowMana
    ||| trigger is CasterOom
    ||| trigger is Add
}

fn is_tactical_trigger(trigger: &ChatTrigger) -> (r: bool)
    ensures
        r == tactical(*trigger),
{
    match trigger {
        ChatTrigger::Incoming { .. } => true,
        ChatTrigger::PlayerNearDeath { .. } => true,
        ChatTrigger::TankLowHp { .. } => true,
        ChatTrigger::HealerLowMana { .. } => true,
        ChatTrigger::CasterOom { .. } => true,
        ChatTrigger::Add { .. } => true,
        _ => false,
    }
}

/// Whether a trigger makes a frustrated character more likely to speak.
pub open spec fn frustrating(trigger: ChatTrigger) -> bool {
    ||| trigger is SpellResisted
    ||| trigger is ResistStreak
    ||| trigger is PlayerDied
    ||| trigger is Wipe
    ||| trigger is BadLoot
}

fn is_frustrating(trigger: &ChatTrigger) -> (r: bool)
    ensures
        r == frustrating(*trigger),
{
    match trigger {
        ChatTrigger::SpellResisted { .. } => true,
        ChatTrigger::ResistStreak { .. } => true,
        ChatTrigger::PlayerDied { .. } => true,
        ChatTrigger::Wipe => true,
        ChatTrigger::BadLoot { .. } => true,
        _ => false,
    }
}

/// Whose doing a trigger is, where a character does not react to their own.
pub open spec fn actor(trigger: ChatTrigger) -> Option<Seq<char>> {
    match trigger {
        ChatTrigger::LevelUp { who, .. } => Some(who@),
        ChatTrigger::TankLowHp { player, .. } => Some(player@),
        ChatTrigger::HealerLowMana { player, .. } => Some(player@),
        ChatTrigger::NearDeathSave { healer, .. } => Some(healer@),
        ChatTrigger::BigHit { src, .. } => Some(src@),
        ChatTrigger::RepeatMiss { player, .. } => Some(player@),
        ChatTrigger::MobKilled { killer, .. } => Some(killer@),
        ChatTrigger::RlDeparture { who, .. } => Some(who@),
        ChatTrigger::RlReturn { who, .. } => Some(who@),
        _ => None,
    }
}

fn is_self_trigger(trigger: &ChatTrigger, name: &str) -> (r: bool)
    ensures
        r == (actor(*trigger) == Some(name@)),
{
    match trigger {
        ChatTrigger::LevelUp { who, .. } => text::same(who.as_str(), name),
        ChatTrigger::TankLowHp { player, .. } => text::same(player.as_str(), name),
        ChatTrigger::HealerLowMana { player, .. } => text::same(player.as_str(), name),
        ChatTrigger::NearDeathSave { healer, .. } => text::same(healer.as_str(), name),
        ChatTrigger::BigHit { src, .. } => text::same(src.as_str(), name),
        ChatTrigger::RepeatMiss { player, .. } => text::same(player.as_str(), name),
        ChatTrigger::MobKilled { killer, .. } => text::same(killer.as_str(), name),
        ChatTrigger::RlDeparture { who, .. } => text::same(who.as_str(), name),
        ChatTrigger::RlReturn { who, .. } => text::same(who.as_str(), name),
        _ => false,
    }
}

/// Whether a character speaks of a trigger of their own: announcing that they
/// leave or are back, or that their mana is gone.
pub open spec fn speaks_of_own(trigger: ChatTrigger) -> bool {
    ||| trigger is CasterOom
    ||| trigger is HealerLowMana
    ||| trigger is RlDeparture
    ||| trigger is RlReturn
    ||| trigger is PlayerDied
}

fn self_trigger_speaks(trigger: &ChatTrigger) -> (r: bool)
    ensures
        r == speaks_of_own(*trigger),
{
    match trigger {
        ChatTrigger::CasterOom { .. } => true,
        ChatTrigger::HealerLowMana { .. } => true,
        ChatTrigger::RlDeparture { .. } => true,
        ChatTrigger::RlReturn { .. } => true,
        ChatTrigger::PlayerDied { .. } => true,
        _ => false,
    }
}

/// Whether a character is asked at all whether they speak of a trigger.
pub open spec fn considered(trigger: ChatTrigger, name: Seq<char>) -> bool {
    actor(trigger) != Some(name) || speaks_of_own(trigger)
}

/// Whether a character is asked at all whether they speak of a trigger: not of
/// what they did themselves, for most triggers.
pub fn considers(trigger: &ChatTrigger, name: &str) -> (r: bool)
    ensures
        r == considered(*trigger, name@),
{
    !is_self_trigger(trigger, name) || self_trigger_speaks(trigger)
}

/// The other participant of a trigger, seen from a character.
pub open spec fn primary_other(trigger: ChatTrigger, name: Seq<char>) -> Option<Seq<char>> {
    match trigger {
        ChatTrigger::NearDeathSave { healer, target } => Some(
            if healer@ == name {
                target@
            } else {
                healer@
            },
        ),
        ChatTrigger::BigHit { src, tgt, .. } => Some(
            if src@ == name {
                tgt@
            } else {
                src@
            },
        ),
        ChatTrigger::MobKilled { killer, .. } => Some(killer@),
        ChatTrigger::RlDeparture { who, .. } => Some(who@),
        ChatTrigger::RlReturn { who, .. } => Some(who@),
        _ => None,
    }
}

/// The name of the trigger's primary other participant, used to look up a
/// relationship for context.
pub fn trigger_primary_other<'a>(trigger: &'a ChatTrigger, self_name: &str) -> (r: Option<&'a str>)
    ensures
        match r {
            Some(o) => primary_other(*trigger, self_name@) == Some(o@),
            None => primary_other(*trigger, self_name@) is None,
        },
{
    match trigger {
        ChatTrigger::NearDeathSave { healer, target } => if text::same(
            healer.as_str(),
            self_name,
        ) {
            Some(target.as_str())
        } else {
            Some(healer.as_str())
        },
        ChatTrigger::BigHit { src, tgt, .. } => if text::same(src.as_str(), self_name) {
            Some(tgt.as_str())
        } else {
            Some(src.as_str())
        },
        ChatTrigger::MobKilled { killer, .. } => Some(killer.as_str()),
        ChatTrigger::RlDeparture { who, .. } => Some(who.as_str()),
        ChatTrigger::RlReturn { who, .. } => Some(who.as_str()),
        _ => None,
    }
}

/// The kind under which phrase pools know a trigger.
pub open spec fn kind_of(trigger: ChatTrigger) -> Seq<char> {
    match trigger {
        ChatTrigger::MobKilled { .. } => "MobKilled"@,
        ChatTrigger::PlayerDied { .. } => "PlayerDied"@,
        ChatTrigger::NearDeathSave { .. } => "NearDeathSave"@,
        ChatTrigger::PlayerNearDeath { .. } => "PlayerNearDeath"@,
        ChatTrigger::BigHit { .. } => "BigHit"@,
        ChatTrigger::SpellResisted { .. } => "SpellResisted"@,
        ChatTrigger::ResistStreak { .. } => "ResistStreak"@,
        ChatTrigger::Wipe => "Wipe"@,
        ChatTrigger::CleanStreak { .. } => "CleanStreak"@,
        ChatTrigger::TankLowHp { .. } => "PlayerNearDeath"@,
        ChatTrigger::HealerLowMana { .. } => "CasterOom"@,
        ChatTrigger::CasterOom { .. } => "CasterOom"@,
        ChatTrigger::Incoming { .. } => "Incoming"@,
        ChatTrigger::Add { .. } => "Incoming"@,
        ChatTrigger::RepeatMiss { .. } => "RepeatMiss"@,
        ChatTrigger::GoodLoot { .. } => "GoodLoot"@,
        ChatTrigger::BadLoot { .. } => "BadLoot"@,
        ChatTrigger::LevelUp { .. } => "LevelUp"@,
        ChatTrigger::RlDeparture { .. } => "RlDeparture"@,
        ChatTrigger::RlReturn { .. } => "RlReturn"@,
        _ => "Generic"@,
    }
}

/// The kind under which phrase pools know a trigger.
pub fn trigger_kind(trigger: &ChatTrigger) -> (r: &'static str)
    ensures
        r@ == kind_of(*trigger),
{
    match trigger {
        ChatTrigger::MobKilled { .. } => "MobKilled",
        ChatTrigger::PlayerDied { .. } => "PlayerDied",
        ChatTrigger::NearDeathSave { .. } => "NearDeathSave",
        ChatTrigger::PlayerNearDeath { .. } => "PlayerNearDeath",
        ChatTrigger::BigHit { .. } => "BigHit",
        ChatTrigger::SpellResisted { .. } => "SpellResisted",
        ChatTrigger::ResistStreak { .. } => "ResistStreak",
        ChatTrigger::Wipe => "Wipe",
        ChatTrigger::CleanStreak { .. } => "CleanStreak",
        ChatTrigger::TankLowHp { .. } => "PlayerNearDeath",
        ChatTrigger::HealerLowMana { .. } => "CasterOom",
        ChatTrigger::CasterOom { .. } => "CasterOom",
        ChatTrigger::Incoming { .. } => "Incoming",
        ChatTrigger::Add { .. } => "Incoming",
        ChatTrigger::RepeatMiss { .. } => "RepeatMiss",
        ChatTrigger::GoodLoot { .. } => "GoodLoot",
        ChatTrigger::BadLoot { .. } => "BadLoot",
        ChatTrigger::LevelUp { .. } => "LevelUp",
        ChatTrigger::RlDeparture { .. } => "RlDeparture",
        ChatTrigger::RlReturn { .. } => "RlReturn",
        _ => "Generic",
    }
}

/// Why a player steps away, in words.
pub open spec fn reason_of(kind: RlKind) -> Seq<char> {
    match kind {
        RlKind::Food => "grabbing food"@,
        RlKind::Bathroom => "bio break"@,
        RlKind::Phone => "phone"@,
        RlKind::Family => "one sec"@,
        RlKind::Pet => "dog needs out"@,
        RlKind::Chores => "sec"@,
        RlKind::Distraction => "one sec"@,
    }
}

/// Why a player steps away, in words.
pub fn rl_reason_text(kind: &RlKind) -> (r: &'static str)
    ensures
        r@ == reason_of(*kind),
{
    match kind {
        RlKind::Food => "grabbing food",
        RlKind::Bathroom => "bio break",
        RlKind::Phone => "phone",
        RlKind::Family => "one sec",
        RlKind::Pet => "dog needs out",
        RlKind::Chores => "sec",
        RlKind::Distraction => "one sec",
    }
}

/// The slots that a trigger fills, after the character's own name.
pub open spec fn trigger_slots(trigger: ChatTrigger) -> Seq<(Seq<char>, Seq<char>)> {
    match trigger {
        ChatTrigger::MobKilled { mob, killer, .. } => seq![
            ("mob"@, mob@),
            ("killer"@, killer@),
        ],
        ChatTrigger::PlayerDied { who, cause } => seq![("player"@, who@), ("cause"@, cause@)],
        ChatTrigger::NearDeathSave { healer, target } => seq![
            ("healer"@, healer@),
            ("target"@, target@),
        ],
        ChatTrigger::PlayerNearDeath { who, .. } => seq![("player"@, who@)],
        ChatTrigger::TankLowHp { player, .. } => seq![("player"@, player@)],
        ChatTrigger::CasterOom { player } => seq![("player"@, player@)],
        ChatTrigger::HealerLowMana { player, .. } => seq![("player"@, player@)],
        ChatTrigger::BigHit { src, tgt, dmg, ability } => seq![
            ("src"@, src@),
            ("tgt"@, tgt@),
            ("dmg"@, text::decimal(dmg as nat)),
            ("ability"@, ability@),
        ],
        ChatTrigger::SpellResisted { caster, mob, spell, nth } => seq![
            ("caster"@, caster@),
            ("mob"@, mob@),
            ("spell"@, spell@),
            ("count"@, text::decimal(nth as nat)),
        ],
        ChatTrigger::ResistStreak { mob, count } => seq![
            ("mob"@, mob@),
            ("count"@, text::decimal(count as nat)),
        ],
        ChatTrigger::Incoming { count, mob, puller } => seq![
            ("count"@, text::decimal(count as nat)),
            ("mob"@, mob@),
            ("puller"@, puller@),
        ],
        ChatTrigger::Add { mob } => seq![("mob"@, mob@)],
        ChatTrigger::RepeatMiss { player, mob, count } => seq![
            ("player"@, player@),
            ("mob"@, mob@),
            ("count"@, text::decimal(count as nat)),
        ],
        ChatTrigger::GoodLoot { item, recipient } => seq![
            ("item"@, item@),
            ("recipient"@, recipient@),
        ],
        ChatTrigger::BadLoot { item } => seq![("item"@, item@)],
        ChatTrigger::LevelUp { who, level } => seq![
            ("who"@, who@),
            ("level"@, text::decimal(level as nat)),
        ],
        ChatTrigger::CleanStreak { kills } => seq![("count"@, text::decimal(kills as nat))],
        ChatTrigger::RlDeparture { who, kind } => seq![
            ("who"@, who@),
            ("rl_reason"@, reason_of(kind)),
        ],
        ChatTrigger::RlReturn { who, missed } => seq![
            ("who"@, who@),
            (
                "rl_context"@,
                if missed@.len() == 0 {
                    Seq::empty()
                } else {
                    missed@[0]@
                },
            ),
        ],
        _ => Seq::empty(),
    }
}

fn push_slot(v: &mut Vec<Slot>, name: &str, value: String)
    ensures
        context::slot_views(final(v)@) == context::slot_views(old(v)@).push((name@, value@)),
{
    let ghost before = v@;
    v.push(Slot { name: name.to_owned(), value });
    proof {
        assert(context::slot_views(v@) =~= context::slot_views(before).push((name@, value@)));
    }
}

/// The slots that templates for a trigger can name: the character's own name,
/// and what the trigger tells.
pub fn extract_slots(trigger: &ChatTrigger, self_name: &str) -> (r: Vec<Slot>)
    ensures
        context::slot_views(r@) == seq![("self"@, self_name@)] + trigger_slots(*trigger),
{
    let mut s: Vec<Slot> = Vec::new();
    push_slot(&mut s, "self", self_name.to_owned());
    match trigger {
        ChatTrigger::MobKilled { mob, killer, .. } => {
            push_slot(&mut s, "mob", mob.clone());
            push_slot(&mut s, "killer", killer.clone());
        },
        ChatTrigger::PlayerDied { who, cause } => {
            push_slot(&mut s, "player", who.clone());
            push_slot(&mut s, "cause", cause.clone());
        },
        ChatTrigger::NearDeathSave { healer, target } => {
            push_slot(&mut s, "healer", healer.clone());
            push_slot(&mut s, "target", target.clone());
        },
        ChatTrigger::PlayerNearDeath { who, .. } => {
            push_slot(&mut s, "player", who.clone());
        },
        ChatTrigger::TankLowHp { player, .. } => {
            push_slot(&mut s, "player", player.clone());
        },
        ChatTrigger::CasterOom { player } => {
            push_slot(&mut s, "player", player.clone());
        },
        ChatTrigger::HealerLowMana { player, .. } => {
            push_slot(&mut s, "player", player.clone());
        },
        ChatTrigger::BigHit { src, tgt, dmg, ability } => {
            push_slot(&mut s, "src", src.clone());
            push_slot(&mut s, "tgt", tgt.clone());
            push_slot(&mut s, "dmg", text::decimal_string(*dmg as u64));
            push_slot(&mut s, "ability", ability.clone());
        },
        ChatTrigger::SpellResisted { caster, mob, spell, nth } => {
            push_slot(&mut s, "caster", caster.clone());
            push_slot(&mut s, "mob", mob.clone());
            push_slot(&mut s, "spell", spell.clone());
            push_slot(&mut s, "count", text::decimal_string(*nth as u64));
        },
        ChatTrigger::ResistStreak { mob, count } => {
            push_slot(&mut s, "mob", mob.clone());
            push_slot(&mut s, "count", text::decimal_string(*count as u64));
        },
        ChatTrigger::Incoming { count, mob, puller } => {
            push_slot(&mut s, "count", text::decimal_string(*count as u64));
            push_slot(&mut s, "mob", mob.clone());
            push_slot(&mut s, "puller", puller.clone());
        },
        ChatTrigger::Add { mob } => {
            push_slot(&mut s, "mob", mob.clone());
        },
        ChatTrigger::RepeatMiss { player, mob, count } => {
            push_slot(&mut s, "player", player.clone());
            push_slot(&mut s, "mob", mob.clone());
            push_slot(&mut s, "count", text::decimal_string(*count as u64));
        },
        ChatTrigger::GoodLoot { item, recipient } => {
            push_slot(&mut s, "item", item.clone());
            push_slot(&mut s, "recipient", recipient.clone());
        },
        ChatTrigger::BadLoot { item } => {
            push_slot(&mut s, "item", item.clone());
        },
        ChatTrigger::LevelUp { who, level } => {
            push_slot(&mut s, "who", who.clone());
            push_slot(&mut s, "level", text::decimal_string(*level as u64));
        },
        ChatTrigger::CleanStreak { kills } => {
            push_slot(&mut s, "count", text::decimal_string(*kills as u64));
        },
        ChatTrigger::RlDeparture { who, kind } => {
            push_slot(&mut s, "who", who.clone());
            push_slot(&mut s, "rl_reason", rl_reason_text(kind).to_owned());
        },
        ChatTrigger::RlReturn { who, missed } => {
            push_slot(&mut s, "who", who.clone());
            let first: String = if missed.len() == 0 {
                String::new()
            } else {
                missed[0].clone()
            };
            proof {
                assert(missed@.len() == 0 ==> first@ =~= Seq::<char>::empty());
            }
            push_slot(&mut s, "rl_context", first);
        },
        _ => {},
    }
    proof {
        assert(context::slot_views(s@) =~= seq![("self"@, self_name@)] + trigger_slots(*trigger));
    }
    s
}

// ── What happens to a character ─────────────────────────────────────────────

/// What a character remembers once a trigger was noticed.
pub open spec fn noticed<F>(
    s: StateView<F>,
    name: Seq<char>,
    trigger: ChatTrigger,
    now: u64,
) -> StateView<F> {
    match event_of(trigger) {
        Some(e) => s.after(e),
        None => match trigger {
            ChatTrigger::RlDeparture { who, kind } => if who@ == name {
                StateView {
                    rl_active: Some(
                        RlEvent {
                            kind,
                            started: now,
                            expected_duration_secs: kind.spec_duration(),
                        },
                    ),
                    ..s
                }
            } else {
                s
            },
            ChatTrigger::RlReturn { who, .. } => if who@ == name {
                StateView { rl_active: None, ..s }
            } else {
                s
            },
            _ => s,
        },
    }
}

/// Whether a trigger can be counted.
pub open spec fn countable<F>(s: StateView<F>, trigger: ChatTrigger) -> bool {
    event_of(trigger) matches Some(e) ==> s.has_room_for(e)
}

fn notice<F>(c: &mut Character<F>, trigger: &ChatTrigger, now: u64)
    requires
        countable(old(c).state@, *trigger),
    ensures
        final(c).name == old(c).name,
        final(c).profile == old(c).profile,
        final(c).state@ == noticed(old(c).state@, old(c).name@, *trigger, now),
{
    match game_event(trigger) {
        Some(e) => {
            c.state.on_event(e);
        },
        None => match trigger {
            ChatTrigger::RlDeparture { who, kind } => {
                if text::same(who.as_str(), c.name.as_str()) {
                    c.state.start_rl_event(*kind, now);
                }
            },
            ChatTrigger::RlReturn { who, .. } => {
                if text::same(who.as_str(), c.name.as_str()) {
                    c.state.end_rl_event();
                }
            },
            _ => {},
        },
    }
}

/// What a character remembers once they said a phrase about a trigger.
pub open spec fn spoken<F>(
    s: StateView<F>,
    trigger: ChatTrigger,
    hash: u64,
    now: u64,
) -> StateView<F> {
    let t = StateView {
        phrases: state::remembered(s.phrases, hash),
        last_spoke: Some(now),
        ..s
    };
    match trigger.spec_topic() {
        Some(topic) => StateView {
            cooldowns: t.cooldowns.insert(topic.spec_number(), now),
            counts: t.counts.remove(topic.spec_number()),
            ..t
        },
        None => t,
    }
}

fn speak<F>(c: &mut Character<F>, trigger: &ChatTrigger, hash: u64, now: u64)
    ensures
        final(c).name == old(c).name,
        final(c).profile == old(c).profile,
        final(c).state@ == spoken(old(c).state@, *trigger, hash, now),
{
    c.state.record_phrase(hash);
    c.state.mark_spoke(now);
    if let Some(topic) = trigger.topic() {
        c.state.mark_topic_spoken(topic, now);
    }
}

/// What decides how likely a character is to speak.
#[derive(Debug, Clone, Copy, PartialEq, Eq, Structural)]
pub struct SpeakFacts {
    pub urgency: u8,
    /// An action-expresser, and nothing to act on.
    pub holds_back: bool,
    /// How often the topic came up without a word on it; nothing where the
    /// trigger has no topic.
    pub pressure: Option<u32>,
    /// The topic was spoken of lately, and this is no emergency.
    pub on_cooldown: bool,
    pub distracted: bool,
    /// The trigger makes a frustrated character more likely to speak.
    pub frustrating: bool,
}

/// What the standard library's default hasher returns for a text.
pub uninterp spec fn phrase_number(text: Seq<char>) -> u64;

/// `BuildHasher::hash_one` of `DefaultHasher`: the number by which a phrase is remembered. Hashers
/// that are made by default are all the same, so that it depends on the text alone. Which number
/// it is, and whether two texts share one, is left open.
#[verifier::external_body]
fn hash_of(s: &str) -> (r: u64)
    ensures
        r == phrase_number(s@),
{
    std::hash::BuildHasherDefault::<std::collections::hash_map::DefaultHasher>::default().hash_one(s)
}

/// The number by which a phrase is remembered.
pub fn phrase_hash(s: &str) -> (r: u64)
    ensures
        r == phrase_number(s@),
{
    hash_of(s)
}

/// A message would be cut inside a character.
#[derive(Debug, Clone, Copy, PartialEq, Eq, Structural)]
pub struct CutInside;

/// What was decided outside of the engine for one character.
pub struct Turn {
    pub name: String,
    /// Whether chance let the character speak.
    pub speaks: bool,
    /// What the character has to say, in their style.
    pub text: Option<String>,
    /// After how many nanoseconds it is due.
    pub delay: u64,
    /// A correction that follows it.
    pub correction: Option<PendingMessage>,
}

/// Whether a message is the correction that may follow what a turn says: by the
/// same speaker, in no channel, with the end of what was said, and two to eight
/// seconds after it.
pub open spec fn corrects(m: MessageView, t: Turn, now: u64) -> bool {
    &&& m.speaker == t.name@
    &&& m.channel.len() == 0
    &&& t.text is Some && m.text == style::correction_text(t.text->0@)
    &&& exists|gap: u64|
        2 <= gap <= 8 && #[trigger] (gap * state::SECOND) == m.emit_at - now - t.delay
}

/// Whether everyone has at most one turn, and each correction follows what its
/// turn says.
pub open spec fn fitting_turns(turns: Seq<Turn>, now: u64) -> bool {
    &&& forall|i: int, j: int|
        0 <= i < j < turns.len() ==> (#[trigger] turns[i]).name@ != (#[trigger] turns[j]).name@
    &&& forall|i: int|
        0 <= i < turns.len() && (#[trigger] turns[i]).correction is Some ==> corrects(
            turns[i].correction->0@,
            turns[i],
            now,
        )
}

/// Whether a turn leads to a message: the character is asked, chance lets them
/// speak, they have something to say, and they did not say it lately.
pub open spec fn turn_counts(trigger: ChatTrigger, t: Turn, phrases: Seq<u64>) -> bool {
    &&& considered(trigger, t.name@)
    &&& t.speaks
    &&& t.text is Some
    &&& !phrases.contains(phrase_number(t.text->0@))
}

/// What the characters remember after the first `n` turns.
pub open spec fn after_turns<F>(
    names: Seq<Seq<char>>,
    states: Seq<StateView<F>>,
    trigger: ChatTrigger,
    now: u64,
    turns: Seq<Turn>,
    n: nat,
) -> Seq<StateView<F>>
    decreases n,
{
    if n == 0 {
        states
    } else {
        let before = after_turns(names, states, trigger, now, turns, (n - 1) as nat);
        let t = turns[n - 1];
        match place(names, t.name@) {
            Some(i) => if turn_counts(trigger, t, before[i].phrases) {
                before.update(i, spoken(before[i], trigger, phrase_number(t.text->0@), now))
            } else {
                before
            },
            None => before,
        }
    }
}

/// A correction, if there is one.
pub open spec fn correction_views(c: Option<PendingMessage>) -> Seq<MessageView> {
    match c {
        Some(m) => seq![m@],
        None => Seq::empty(),
    }
}

/// The messages that a turn leads to.
pub open spec fn turn_messages(t: Turn, channel: Seq<char>, now: u64) -> Seq<MessageView> {
    correction_views(t.correction).push(
        MessageView {
            emit_at: (now + t.delay) as u64,
            speaker: t.name@,
            channel,
            text: t.text->0@,
        },
    )
}

/// The messages of the first `n` turns, in the order of the turns.
pub open spec fn messages<F>(
    names: Seq<Seq<char>>,
    states: Seq<StateView<F>>,
    trigger: ChatTrigger,
    channel: Seq<char>,
    now: u64,
    turns: Seq<Turn>,
    n: nat,
) -> Seq<MessageView>
    decreases n,
{
    if n == 0 {
        Seq::empty()
    } else {
        let before = after_turns(names, states, trigger, now, turns, (n - 1) as nat);
        let t = turns[n - 1];
        let said = messages(names, states, trigger, channel, now, turns, (n - 1) as nat);
        match place(names, t.name@) {
            Some(i) => if turn_counts(trigger, t, before[i].phrases) {
                said + turn_messages(t, channel, now)
            } else {
                said
            },
            None => said,
        }
    }
}

impl<F: Copy> ChatEngine<F, PhrasebookBackend> {
    /// Create an engine using the built-in phrasebook backend.
    pub fn new(phrases: PhraseDb, seed: u64, now: u64) -> (r: Self)
        ensures
            r.backend.0 == phrases,
            r.is_fresh(now),
    {
        ChatEngine::with_backend(PhrasebookBackend(phrases), seed, now)
    }
}

impl<F: Copy, B> ChatEngine<F, B> {
    /// Whether nobody is there and nothing is due.
    pub open spec fn is_fresh(&self, now: u64) -> bool {
        &&& self.characters@.len() == 0
        &&& self.relationships@ == Map::<Seq<Seq<char>>, Relationship>::empty()
        &&& self.pending@.len() == 0
        &&& self.last_decay == now
    }

    /// Create an engine with a custom backend.
    pub fn with_backend(backend: B, seed: u64, now: u64) -> (r: Self)
        ensures
            r.backend == backend,
            r.is_fresh(now),
    {
        ChatEngine {
            characters: Vec::new(),
            relationships: RelationshipGraph::new(),
            backend,
            rng: dice::seeded(seed),
            pending: VecDeque::new(),
            last_decay: now,
        }
    }

    /// Where a character stands.
    pub open spec fn at(&self, name: Seq<char>) -> Option<int> {
        place(names_of(self.characters@), name)
    }

    fn find(&self, name: &str) -> (r: Option<usize>)
        ensures
            match r {
                Some(i) => self.at(name@) == Some(i as int) && i < self.characters@.len()
                    && self.characters@[i as int].name@ == name@,
                None => self.at(name@) is None,
            },
    {
        let ghost names = names_of(self.characters@);
        let mut i: usize = 0;
        while i < self.characters.len()
            invariant
                names == names_of(self.characters@),
                i <= self.characters@.len(),
                place(names.take(i as int), name@) is None,
            decreases self.characters@.len() - i,
        {
            proof {
                assert(names.take(i + 1).drop_last() =~= names.take(i as int));
                assert(names.take(i + 1).last() == self.characters@[i as int].name@);
            }
            if text::same(self.characters[i].name.as_str(), name) {
                proof {
                    place_of_prefix(names, i + 1, name@);
                }
                return Some(i);
            }
            i += 1;
        }
        proof {
            assert(names.take(i as int) =~= names);
        }
        None
    }

    // ── Roster ──────────────────────────────────────────────────────────────

    /// Adds a character, or replaces the one of that name. They remember
    /// nothing yet.
    pub fn add_character(&mut self, name: &str, profile: PersonalityProfile<F>, mood: Mood<F>)
        ensures
            ({
                let c = match old(self).at(name@) {
                    Some(i) => final(self).characters@[i],
                    None => final(self).characters@.last(),
                };
                &&& c.name@ == name@
                &&& c.profile == profile
                &&& c.state@ == (StateView {
                    mood,
                    rl_active: None,
                    last_spoke: None,
                    cooldowns: Map::empty(),
                    phrases: Seq::empty(),
                    counts: Map::empty(),
                })
                &&& final(self).characters@ == match old(self).at(name@) {
                    Some(i) => old(self).characters@.update(i, c),
                    None => old(self).characters@.push(c),
                }
            }),
            all_different(names_of(old(self).characters@)) ==> all_different(
                names_of(final(self).characters@),
            ),
            final(self).relationships == old(self).relationships,
            final(self).pending == old(self).pending,
            final(self).last_decay == old(self).last_decay,
            final(self).backend == old(self).backend,
    {
        let c = Character { name: name.to_owned(), profile, state: CharacterState::new(mood) };
        let ghost names = names_of(self.characters@);
        match self.find(name) {
            Some(i) => {
                self.characters.set(i, c);
                proof {
                    assert(names_of(self.characters@) =~= names);
                }
            },
            None => {
                self.characters.push(c);
                proof {
                    place_holds(names, name@);
                    assert(names_of(self.characters@) =~= names.push(name@));
                }
            },
        }
    }

    pub fn set_relationship(&mut self, from: &str, to: &str, rel: Relationship)
        ensures
            final(self).relationships@ == old(self).relationships@.insert(
                relationship::toward(from@, to@),
                rel,
            ),
            final(self).characters == old(self).characters,
            final(self).pending == old(self).pending,
            final(self).last_decay == old(self).last_decay,
            final(self).backend == old(self).backend,
    {
        self.relationships.set(from, to, rel);
    }

    /// Establishes a talker and a listener.
    pub fn set_established_duo(&mut self, talker: &str, listener: &str)
        ensures
            final(self).relationships@ == old(self).relationships@.insert(
                relationship::toward(talker@, listener@),
                Relationship::initial(RelDynamic::EstablishedDuo),
            ).insert(
                relationship::toward(listener@, talker@),
                Relationship::initial(RelDynamic::EstablishedDuo),
            ),
            final(self).characters == old(self).characters,
            final(self).pending == old(self).pending,
            final(self).last_decay == old(self).last_decay,
            final(self).backend == old(self).backend,
    {
        self.relationships.set_established_duo(talker, listener);
    }

    /// Makes two characters teammates of each other.
    pub fn set_teammates(&mut self, a: &str, b: &str)
        ensures
            final(self).relationships@ == old(self).relationships@.insert(
                relationship::toward(a@, b@),
                Relationship::initial(RelDynamic::Teammates),
            ).insert(
                relationship::toward(b@, a@),
                Relationship::initial(RelDynamic::Teammates),
            ),
            final(self).characters == old(self).characters,
            final(self).pending == old(self).pending,
            final(self).last_decay == old(self).last_decay,
            final(self).backend == old(self).backend,
    {
        self.relationships.set_symmetric(a, b, RelDynamic::Teammates);
    }

    pub fn character_state(&self, name: &str) -> (r: Option<&CharacterState<F>>)
        ensures
            match r {
                Some(s) => self.at(name@) matches Some(i) && *s == self.characters@[i].state,
                None => self.at(name@) is None,
            },
    {
        match self.find(name) {
            Some(i) => Some(&self.characters[i].state),
            None => None,
        }
    }

    /// Gives the character at `i` another mood.
    pub fn set_mood(&mut self, i: usize, mood: Mood<F>)
        requires
            i < old(self).characters@.len(),
        ensures
            final(self).characters@.len() == old(self).characters@.len(),
            names_of(final(self).characters@) == names_of(old(self).characters@),
            states_of(final(self).characters@) == states_of(old(self).characters@).update(
                i as int,
                StateView { mood, ..old(self).characters@[i as int].state@ },
            ),
            final(self).relationships == old(self).relationships,
            final(self).pending == old(self).pending,
            profiles_of(final(self).characters@) == profiles_of(old(self).characters@),
            final(self).last_decay == old(self).last_decay,
            final(self).backend == old(self).backend,
    {
        self.characters[i].state.mood = mood;
        proof {
            assert(profiles_of(self.characters@) =~= profiles_of(old(self).characters@));
            assert(names_of(self.characters@) =~= names_of(old(self).characters@));
            assert(states_of(self.characters@) =~= states_of(old(self).characters@).update(
                i as int,
                StateView { mood, ..old(self).characters@[i as int].state@ },
            ));
        }
    }

    // ── Dispatch ────────────────────────────────────────────────────────────

    /// Everyone notices a trigger: it is counted, and an interruption starts or
    /// ends.
    pub fn apply_state_updates(&mut self, trigger: &ChatTrigger, now: u64)
        requires
            forall|i: int|
                0 <= i < old(self).characters@.len() ==> countable(
                    (#[trigger] old(self).characters@[i]).state@,
                    *trigger,
                ),
        ensures
            names_of(final(self).characters@) == names_of(old(self).characters@),
            final(self).characters@.len() == old(self).characters@.len(),
            forall|i: int|
                0 <= i < final(self).characters@.len() ==> {
                    &&& (#[trigger] final(self).characters@[i]).state@ == noticed(
                        old(self).characters@[i].state@,
                        old(self).characters@[i].name@,
                        *trigger,
                        now,
                    )
                    &&& final(self).characters@[i].profile == old(self).characters@[i].profile
                },
            final(self).relationships == old(self).relationships,
            final(self).pending == old(self).pending,
            final(self).last_decay == old(self).last_decay,
            final(self).backend == old(self).backend,
    {
        let n: usize = self.characters.len();
        let mut i: usize = 0;
        while i < n
            invariant
                n == self.characters@.len(),
                n == old(self).characters@.len(),
                i <= n,
                forall|j: int|
                    0 <= j < n ==> countable(
                        (#[trigger] old(self).characters@[j]).state@,
                        *trigger,
                    ),
                forall|j: int| 0 <= j < n ==> (#[trigger] self.characters@[j]).name == old(
                    self,
                ).characters@[j].name,
                forall|j: int|
                    0 <= j < i ==> {
                        &&& (#[trigger] self.characters@[j]).state@ == noticed(
                            old(self).characters@[j].state@,
                            old(self).characters@[j].name@,
                            *trigger,
                            now,
                        )
                        &&& self.characters@[j].profile == old(self).characters@[j].profile
                    },
                forall|j: int|
                    i <= j < n ==> #[trigger] self.characters@[j] == old(self).characters@[j],
                self.relationships == old(self).relationships,
                self.pending == old(self).pending,
                self.last_decay == old(self).last_decay,
                self.backend == old(self).backend,
            decreases n - i,
        {
            proof {
                assert(self.characters@[i as int] == old(self).characters@[i as int]);
            }
            notice(&mut self.characters[i], trigger, now);
            i += 1;
        }
        proof {
            assert(names_of(self.characters@) =~= names_of(old(self).characters@));
        }
    }

    /// What decides how likely a character is to speak of a trigger.
    pub open spec fn facts(&self, i: int, trigger: ChatTrigger, now: u64) -> SpeakFacts {
        let c = self.characters@[i];
        let topic = trigger.spec_topic();
        SpeakFacts {
            urgency: trigger.spec_urgency(),
            holds_back: c.profile.expression_mode == ExpressionMode::Action && !tactical(trigger),
            pressure: match topic {
                Some(t) => Some(state::silent_of(c.state@.counts, t)),
                None => None,
            },
            on_cooldown: topic matches Some(t) && c.state.cooling(t, t.spec_cooldown(), now)
                && trigger.spec_urgency() < 3,
            distracted: c.state@.rl_active is Some,
            frustrating: frustrating(trigger),
        }
    }

    /// What decides how likely a character is to speak of a trigger; nothing
    /// where there is no such character.
    pub fn speak_facts(&self, trigger: &ChatTrigger, name: &str, now: u64) -> (r: Option<
        SpeakFacts,
    >)
        ensures
            r == match self.at(name@) {
                Some(i) => Some(self.facts(i, *trigger, now)),
                None => None,
            },
    {
        match self.find(name) {
            None => None,
            Some(i) => {
                let c = &self.characters[i];
                let urgency: u8 = trigger.urgency();
                let topic = trigger.topic();
                let pressure: Option<u32> = match &topic {
                    Some(t) => Some(c.state.silent_count(t)),
                    None => None,
                };
                let on_cooldown: bool = match &topic {
                    Some(t) => c.state.topic_on_cooldown(t, t.cooldown(), now) && urgency < 3,
                    None => false,
                };
                Some(
                    SpeakFacts {
                        urgency,
                        holds_back: c.profile.expression_mode == ExpressionMode::Action
                            && !is_tactical_trigger(trigger),
                        pressure,
                        on_cooldown,
                        distracted: c.state.is_rl_distracted(),
                        frustrating: is_frustrating(trigger),
                    },
                )
            },
        }
    }

    /// Whether `ctx` tells a backend what it needs to know of a trigger and the
    /// character at `i`.
    pub open spec fn is_context(
        &self,
        i: int,
        trigger: ChatTrigger,
        register: EmotionalRegister,
        ctx: SituationContext<F>,
    ) -> bool {
        let c = self.characters@[i];
        &&& ctx.trigger_kind@ == kind_of(trigger)
        &&& context::slot_views(ctx.slots@) == seq![("self"@, c.name@)] + trigger_slots(trigger)
        &&& ctx.archetype == c.profile.archetype
        &&& ctx.register == register
        &&& ctx.verbosity == c.profile.verbosity
        &&& ctx.humor == c.profile.humor
        &&& ctx.positivity == c.profile.positivity
        &&& ctx.patience == c.profile.patience
        &&& ctx.tactical_awareness == c.profile.tactical_awareness
        &&& ctx.social_investment == c.profile.social_investment
        &&& ctx.expression_mode == c.profile.expression_mode
        &&& ctx.frustration == c.state@.mood.frustration
        &&& ctx.morale == c.state@.mood.morale
        &&& ctx.fatigue == c.state@.mood.fatigue
        &&& ctx.relationship == match primary_other(trigger, c.name@) {
            Some(o) => if self.relationships@.dom().contains(relationship::toward(c.name@, o)) {
                Some(self.relationships@[relationship::toward(c.name@, o)].dynamic)
            } else {
                None
            },
            None => None,
        }
        &&& ctx.zone is None
        &&& ctx.group_size == self.characters@.len() % 256
        &&& ctx.recent_messages@.len() == 0
    }

    /// Assemble the context for `name` reacting to `trigger` in a register.
    pub fn build_context(
        &self,
        trigger: &ChatTrigger,
        name: &str,
        register: EmotionalRegister,
    ) -> (r: Option<SituationContext<F>>)
        ensures
            match r {
                Some(ctx) => self.at(name@) matches Some(i) && self.is_context(
                    i,
                    *trigger,
                    register,
                    ctx,
                ),
                None => self.at(name@) is None,
            },
    {
        match self.find(name) {
            None => None,
            Some(i) => {
                let c = &self.characters[i];
                let dynamic: Option<RelDynamic> = match trigger_primary_other(trigger, name) {
                    Some(o) => match self.relationships.get(name, o) {
                        Some(rel) => Some(rel.dynamic),
                        None => None,
                    },
                    None => None,
                };
                let n: usize = self.characters.len();
                Some(
                    SituationContext {
                        trigger_kind: trigger_kind(trigger),
                        slots: extract_slots(trigger, name),
                        archetype: c.profile.archetype,
                        register,
                        verbosity: c.profile.verbosity,
                        humor: c.profile.humor,
                        positivity: c.profile.positivity,
                        patience: c.profile.patience,
                        tactical_awareness: c.profile.tactical_awareness,
                        social_investment: c.profile.social_investment,
                        expression_mode: c.profile.expression_mode,
                        frustration: c.state.mood.frustration,
                        morale: c.state.mood.morale,
                        fatigue: c.state.mood.fatigue,
                        relationship: dynamic,
                        zone: None,
                        group_size: (n % 256) as u8,
                        recent_messages: Vec::new(),
                    },
                )
            },
        }
    }

    /// Whether a character has not said a phrase lately.
    pub fn is_new_to(&self, name: &str, phrase: &str) -> (r: bool)
        ensures
            r == (self.at(name@) matches Some(i) && !self.characters@[i].state@.phrases.contains(
                phrase_number(phrase@),
            )),
    {
        match self.find(name) {
            Some(i) => self.characters[i].state.phrase_is_fresh(phrase_hash(phrase)),
            None => false,
        }
    }

    /// Lets the characters speak of a trigger, by what was decided for each:
    /// everyone who counts says their phrase and remembers it. The messages
    /// come in the order in which they are due; of those due at once, in the
    /// order of the turns, a correction before what it corrects.
    pub fn on_trigger(
        &mut self,
        trigger: &ChatTrigger,
        channel: &str,
        now: u64,
        turns: Vec<Turn>,
    ) -> (r: Vec<PendingMessage>)
        requires
            forall|i: int|
                0 <= i < turns@.len() ==> now + (#[trigger] turns@[i]).delay <= u64::MAX,
            fitting_turns(turns@, now),
        ensures
            ({
                let names = names_of(old(self).characters@);
                let states = states_of(old(self).characters@);
                &&& names_of(final(self).characters@) == names
                &&& states_of(final(self).characters@) == after_turns(
                    names,
                    states,
                    *trigger,
                    now,
                    turns@,
                    turns@.len(),
                )
                &&& exists|all: Seq<PendingMessage>|
                    message_views(all) == messages(
                        names,
                        states,
                        *trigger,
                        channel@,
                        now,
                        turns@,
                        turns@.len(),
                    ) && r@ == #[trigger] maps::ranked_down(all)
            }),
            final(self).relationships == old(self).relationships,
            final(self).pending == old(self).pending,
            final(self).last_decay == old(self).last_decay,
            profiles_of(final(self).characters@) == profiles_of(old(self).characters@),
            final(self).backend == old(self).backend,
    {
        let ghost names = names_of(self.characters@);
        let ghost states = states_of(self.characters@);
        let ghost all = turns@;
        let mut out: Vec<PendingMessage> = Vec::new();
        proof {
            assert(message_views(out@) =~= Seq::<MessageView>::empty());
        }
        for t in it: turns
            invariant
                it.seq() == all,
                names == names_of(self.characters@),
                states_of(self.characters@) == after_turns(
                    names,
                    states,
                    *trigger,
                    now,
                    all,
                    it.index() as nat,
                ),
                message_views(out@) == messages(
                    names,
                    states,
                    *trigger,
                    channel@,
                    now,
                    all,
                    it.index() as nat,
                ),
                forall|i: int|
                    0 <= i < all.len() ==> now + (#[trigger] all[i]).delay <= u64::MAX,
                self.relationships == old(self).relationships,
                self.pending == old(self).pending,
                self.last_decay == old(self).last_decay,
                self.backend == old(self).backend,
                profiles_of(self.characters@) == profiles_of(old(self).characters@),
        {
            let ghost k = it.index() as nat;
            let ghost before = self.characters@;
            let ghost said = out@;
            proof {
                assert(t == all[k as int]);
                assert(now + all[k as int].delay <= u64::MAX);
            }
            if let Some(i) = self.find(t.name.as_str()) {
                proof {
                    assert(states_of(before)[i as int] == before[i as int].state@);
                }
                if considers(trigger, t.name.as_str()) && t.speaks {
                    if let Some(words) = t.text {
                        let hash: u64 = phrase_hash(words.as_str());
                        if self.characters[i].state.phrase_is_fresh(hash) {
                            speak(&mut self.characters[i], trigger, hash, now);
                            proof {
                                assert(names_of(self.characters@) =~= names);
                                assert(profiles_of(self.characters@) =~= profiles_of(before));
                                assert(states_of(self.characters@) =~= states_of(before).update(
                                    i as int,
                                    spoken(before[i as int].state@, *trigger, hash, now),
                                ));
                            }
                            let ghost had = correction_views(t.correction);
                            if let Some(c) = t.correction {
                                out.push(c);
                            }
                            proof {
                                assert(message_views(out@) =~= message_views(said) + had);
                            }
                            let ghost mid = out@;
                            out.push(
                                PendingMessage {
                                    emit_at: now + t.delay,
                                    speaker: t.name,
                                    channel: channel.to_owned(),
                                    text: words,
                                },
                            );
                            proof {
                                assert(message_views(out@) =~= message_views(mid).push(
                                    out@.last()@,
                                ));
                                assert(message_views(out@) =~= message_views(said)
                                    + turn_messages(all[k as int], channel@, now));
                            }
                        }
                    }
                }
            }
        }
        let ghost unsorted = out@;
        let r = maps::sort_down(out);
        proof {
            assert(r@ == maps::ranked_down(unsorted));
        }
        r
    }

    /// A correction that follows a message, two to eight seconds after it,
    /// where chance wants one and the message has room for a typo. It fails where
    /// the message would be cut inside a character.
    pub fn maybe_correction(
        &mut self,
        words: &str,
        name: &str,
        after: u64,
        wanted: bool,
    ) -> (r: Result<Option<PendingMessage>, CutInside>)
        requires
            after + 8 * state::SECOND <= u64::MAX,
        ensures
            match r {
                Ok(Some(m)) => {
                    &&& wanted
                    &&& style::byte_len(words@) >= style::TYPO_BYTES
                    &&& style::has_typo_room(words@)
                    &&& style::tail_start(words@, style::TYPO_BYTES as nat) is Some
                    &&& exists|gap: u64|
                        2 <= gap <= 8 && #[trigger] (gap * state::SECOND) == m.emit_at - after
                    &&& m.speaker@ == name@
                    &&& m.channel@.len() == 0
                    &&& m.text@ == style::correction_text(words@)
                },
                Ok(None) => !wanted || style::byte_len(words@) < style::TYPO_BYTES
                    || !style::has_typo_room(words@),
                Err(_) => {
                    &&& wanted
                    &&& style::byte_len(words@) >= style::TYPO_BYTES
                    &&& style::has_typo_room(words@)
                    &&& !style::correctable(words@)
                },
            },
            final(self).characters == old(self).characters,
            final(self).relationships == old(self).relationships,
            final(self).pending == old(self).pending,
            final(self).last_decay == old(self).last_decay,
            final(self).backend == old(self).backend,
    {
        if !style::longer_than(words, style::TYPO_BYTES - 1) || !wanted {
            return Ok(None);
        }
        let typo: String = match style::inject_typo(words, &mut self.rng) {
            Some(t) => t,
            None => {
                return Err(CutInside);
            },
        };
        if text::same(typo.as_str(), words) {
            proof {
                if style::has_typo_room(words@) {
                    let cut = choose|cut: int|
                        style::last_space(words@) < cut < words@.len() && typo@
                            == #[trigger] words@.take(cut);
                    style::typos_drop_an_ending(words@, cut);
                }
            }
            return Ok(None);
        }
        let gap: u64 = dice::draw_secs(&mut self.rng, 2, 8);
        match style::correction_of(words) {
            Some(correction) => {
                let m = PendingMessage {
                    emit_at: after + gap * state::SECOND,
                    speaker: name.to_owned(),
                    channel: String::new(),
                    text: correction,
                };
                proof {
                    assert(2 <= gap <= 8 && gap * state::SECOND == m.emit_at - after);
                }
                Ok(Some(m))
            },
            None => Err(CutInside),
        }
    }

    // ── The queue ───────────────────────────────────────────────────────────

    /// Drain messages that are ready at `now`.
    pub fn poll(&mut self, now: u64) -> (r: Vec<EmittedMessage>)
        ensures
            ({
                let k = due(old(self).pending@, now);
                &&& final(self).pending@ == old(self).pending@.skip(k as int)
                &&& r@.len() == k
                &&& forall|i: int|
                    0 <= i < k ==> is_emitted(old(self).pending@[i], #[trigger] r@[i])
            }),
            in_order(old(self).pending@) ==> in_order(final(self).pending@),
            final(self).characters == old(self).characters,
            final(self).relationships == old(self).relationships,
            final(self).last_decay == old(self).last_decay,
            final(self).backend == old(self).backend,
    {
        let mut out: Vec<EmittedMessage> = Vec::new();
        let ghost all = self.pending@;
        proof {
            assert(all.skip(0) =~= all);
        }
        while self.pending.len() > 0 && self.pending[0].emit_at <= now
            invariant
                all == old(self).pending@,
                out@.len() <= all.len(),
                self.pending@ == all.skip(out@.len() as int),
                out@.len() + due(self.pending@, now) == due(all, now),
                forall|i: int|
                    0 <= i < out@.len() ==> is_emitted(all[i], #[trigger] out@[i]),
                self.characters == old(self).characters,
                self.relationships == old(self).relationships,
                self.last_decay == old(self).last_decay,
                self.backend == old(self).backend,
            decreases self.pending@.len(),
        {
            let ghost before = self.pending@;
            let ghost sent = out@;
            if let Some(m) = self.pending.pop_front() {
                out.push(EmittedMessage { speaker: m.speaker, channel: m.channel, text: m.text });
                proof {
                    assert(self.pending@ =~= before.skip(1));
                    assert(self.pending@ =~= all.skip(out@.len() as int));
                    assert forall|i: int| 0 <= i < out@.len() implies is_emitted(
                        all[i],
                        #[trigger] out@[i],
                    ) by {
                        if i < sent.len() {
                            assert(out@[i] == sent[i]);
                        }
                    }
                }
            }
        }
        out
    }

    /// Queue messages, each behind those that are due no later.
    pub fn queue(&mut self, messages: Vec<PendingMessage>)
        requires
            in_order(old(self).pending@),
            old(self).pending@.len() + messages@.len() <= usize::MAX,
        ensures
            final(self).pending@ == queued(old(self).pending@, messages@),
            in_order(final(self).pending@),
            final(self).characters == old(self).characters,
            final(self).relationships == old(self).relationships,
            final(self).last_decay == old(self).last_decay,
            final(self).backend == old(self).backend,
    {
        let ghost all = messages@;
        let ghost start = self.pending@;
        proof {
            assert(all.take(0) =~= Seq::<PendingMessage>::empty());
        }
        for m in it: messages
            invariant
                it.seq() == all,
                start.len() + all.len() <= usize::MAX,
                in_order(self.pending@),
                self.pending@.len() == start.len() + it.index(),
                self.pending@ == queued(start, all.take(it.index() as int)),
                self.characters == old(self).characters,
                self.relationships == old(self).relationships,
                self.last_decay == old(self).last_decay,
                self.backend == old(self).backend,
        {
            let ghost k = it.index() as int;
            let ghost before = self.pending@;
            let n: usize = self.pending.len();
            let mut p: usize = 0;
            proof {
                assert(m == all[k]);
                assert(all.take(k + 1).drop_last() =~= all.take(k));
                assert(all.take(k + 1).last() == m);
                assert(before.skip(0) =~= before);
            }
            while p < n && self.pending[p].emit_at <= m.emit_at
                invariant
                    n == before.len(),
                    self.pending@ == before,
                    p <= n,
                    p + due(before.skip(p as int), m.emit_at) == due(before, m.emit_at),
                    self.characters == old(self).characters,
                    self.relationships == old(self).relationships,
                    self.last_decay == old(self).last_decay,
                    self.backend == old(self).backend,
                decreases n - p,
            {
                proof {
                    assert(before.skip(p as int).skip(1) =~= before.skip(p + 1));
                    assert(before.skip(p as int)[0] == before[p as int]);
                }
                p += 1;
            }
            proof {
                if p < n {
                    assert(before.skip(p as int)[0] == before[p as int]);
                }
                assert(due(before.skip(p as int), m.emit_at) == 0);
                due_splits(before, m.emit_at);
                assert forall|i: int, j: int|
                    0 <= i <= j < before.insert(p as int, m).len() implies (
                #[trigger] before.insert(p as int, m)[i]).emit_at <= (
                #[trigger] before.insert(p as int, m)[j]).emit_at by {
                    let i2 = if i < p { i } else { i - 1 };
                    let j2 = if j < p { j } else { j - 1 };
                    if i != p && j != p {
                        assert(before[i2].emit_at <= before[j2].emit_at);
                    }
                }
            }
            self.pending.insert(p, m);
        }
        proof {
            assert(all.take(all.len() as int) =~= all);
        }
    }

    // ── Decay ───────────────────────────────────────────────────────────────

    /// Ends the interruptions that have lasted as long as expected; returns the
    /// nanoseconds since emotions last decayed.
    pub fn decay_tick(&mut self, now: u64) -> (r: u64)
        ensures
            r == if now < old(self).last_decay {
                0
            } else {
                (now - old(self).last_decay) as u64
            },
            final(self).last_decay == now,
            names_of(final(self).characters@) == names_of(old(self).characters@),
            final(self).characters@.len() == old(self).characters@.len(),
            forall|i: int|
                0 <= i < final(self).characters@.len() ==> (#[trigger] final(self).characters@[i]).state@
                    == expired(old(self).characters@[i].state@, now),
            final(self).relationships == old(self).relationships,
            final(self).pending == old(self).pending,
            profiles_of(final(self).characters@) == profiles_of(old(self).characters@),
            final(self).backend == old(self).backend,
    {
        let elapsed: u64 = if now < self.last_decay {
            0
        } else {
            now - self.last_decay
        };
        self.last_decay = now;
        let n: usize = self.characters.len();
        let mut i: usize = 0;
        while i < n
            invariant
                n == self.characters@.len(),
                n == old(self).characters@.len(),
                i <= n,
                self.last_decay == now,
                forall|j: int| 0 <= j < n ==> (#[trigger] self.characters@[j]).name == old(
                    self,
                ).characters@[j].name,
                forall|j: int|
                    0 <= j < i ==> (#[trigger] self.characters@[j]).state@ == expired(
                        old(self).characters@[j].state@,
                        now,
                    ),
                forall|j: int|
                    i <= j < n ==> #[trigger] self.characters@[j] == old(self).characters@[j],
                self.relationships == old(self).relationships,
                self.pending == old(self).pending,
                self.backend == old(self).backend,
                forall|j: int| 0 <= j < n ==> (#[trigger] self.characters@[j]).profile == old(
                    self,
                ).characters@[j].profile,
            decreases n - i,
        {
            proof {
                assert(self.characters@[i as int] == old(self).characters@[i as int]);
            }
            self.characters[i].state.expire_rl_event(now);
            i += 1;
        }
        proof {
            assert(names_of(self.characters@) =~= names_of(old(self).characters@));
            assert(profiles_of(self.characters@) =~= profiles_of(old(self).characters@));
        }
        elapsed
    }
}

impl<F: Copy, B: ChatBackend<F>> ChatEngine<F, B> {
    /// What the backend has a character say of a trigger in a register.
    pub fn compose(
        &mut self,
        trigger: &ChatTrigger,
        name: &str,
        register: EmotionalRegister,
    ) -> (r: Option<String>)
        ensures
            match old(self).at(name@) {
                Some(i) => exists|ctx: SituationContext<F>| #[trigger]
                    old(self).is_context(i, *trigger, register, ctx) && old(self).backend.may_say(
                        ctx,
                        text::opt_view(r),
                    ),
                None => r is None,
            },
            final(self).characters == old(self).characters,
            final(self).relationships == old(self).relationships,
            final(self).pending == old(self).pending,
            final(self).last_decay == old(self).last_decay,
    {
        match self.build_context(trigger, name, register) {
            Some(ctx) => self.backend.generate(&ctx, &mut self.rng),
            None => None,
        }
    }
}

/// What a character remembers once an interruption that has lasted as long as
/// expected is over.
pub open spec fn expired<F>(s: StateView<F>, now: u64) -> StateView<F> {
    StateView {
        rl_active: match s.rl_active {
            Some(ev) => if state::secs_between(ev.started, now) >= ev.expected_duration_secs {
                None
            } else {
                Some(ev)
            },
            None => None,
        },
        ..s
    }
}

/// Whether messages are in the order in which they are due.
pub open spec fn in_order(q: Seq<PendingMessage>) -> bool {
    forall|i: int, j: int|
        0 <= i <= j < q.len() ==> (#[trigger] q[i]).emit_at <= (#[trigger] q[j]).emit_at
}

/// How many messages at the front are due at `now`.
pub open spec fn due(q: Seq<PendingMessage>, now: u64) -> nat
    decreases q.len(),
{
    if q.len() == 0 || q[0].emit_at > now {
        0
    } else {
        1 + due(q.skip(1), now)
    }
}

/// Whether a message was emitted as it was scheduled.
pub open spec fn is_emitted(m: PendingMessage, e: EmittedMessage) -> bool {
    e.speaker@ == m.speaker@ && e.channel@ == m.channel@ && e.text@ == m.text@
}

/// A queue with messages put in, each behind those that are due no later.
pub open spec fn queued(q: Seq<PendingMessage>, messages: Seq<PendingMessage>) -> Seq<
    PendingMessage,
>
    decreases messages.len(),
{
    if messages.len() == 0 {
        q
    } else {
        let before = queued(q, messages.drop_last());
        before.insert(due(before, messages.last().emit_at) as int, messages.last())
    }
}

/// The messages counted as due are due, and the next is not.
proof fn due_splits(q: Seq<PendingMessage>, now: u64)
    ensures
        due(q, now) <= q.len(),
        forall|i: int| 0 <= i < due(q, now) ==> (#[trigger] q[i]).emit_at <= now,
        due(q, now) < q.len() ==> q[due(q, now) as int].emit_at > now,
    decreases q.len(),
{
    if q.len() > 0 && q[0].emit_at <= now {
        due_splits(q.skip(1), now);
        assert forall|i: int| 0 <= i < due(q, now) implies (#[trigger] q[i]).emit_at <= now by {
            if i > 0 {
                assert(q[i] == q.skip(1)[i - 1]);
            }
        }
    }
}

// ── Laws ────────────────────────────────────────────────────────────────────

/// What messages hold is the same before and after they are put in order.
proof fn ordering_keeps_messages(all: Seq<PendingMessage>)
    ensures
        message_views(maps::ranked_down(all)).to_multiset() == message_views(all).to_multiset(),
    decreases all.len(),
{
    broadcast use vstd::seq_lib::group_to_multiset_ensures;

    if all.len() > 0 {
        let t = maps::ranked_down(all.drop_last());
        let x = all.last();
        ordering_keeps_messages(all.drop_last());
        maps::place_within(t, x.rank());
        let p = maps::place_of(t, x.rank()) as int;
        assert(message_views(t.insert(p, x)) =~= message_views(t).insert(p, x@));
        assert(message_views(all) =~= message_views(all.drop_last()).push(x@));
    }
}

/// The messages by one speaker.
pub open spec fn said_by(ms: Multiset<MessageView>, name: Seq<char>) -> Multiset<MessageView> {
    ms.filter(|m: MessageView| m.speaker == name)
}

proof fn speakers_are_apart(a: Seq<MessageView>, b: Seq<MessageView>, name: Seq<char>)
    ensures
        said_by((a + b).to_multiset(), name) == said_by(a.to_multiset(), name).add(
            said_by(b.to_multiset(), name),
        ),
{
    vstd::seq_lib::lemma_multiset_commutative(a, b);
    assert(said_by((a + b).to_multiset(), name) =~= said_by(a.to_multiset(), name).add(
        said_by(b.to_multiset(), name),
    ));
}

proof fn turns_are_by_their_speaker(t: Turn, channel: Seq<char>, now: u64, name: Seq<char>)
    requires
        t.correction is Some ==> corrects(t.correction->0@, t, now),
    ensures
        t.name@ == name ==> said_by(turn_messages(t, channel, now).to_multiset(), name)
            == turn_messages(t, channel, now).to_multiset(),
        t.name@ != name ==> said_by(turn_messages(t, channel, now).to_multiset(), name)
            == Multiset::<MessageView>::empty(),
{
    broadcast use vstd::seq_lib::group_to_multiset_ensures;

    let ms = turn_messages(t, channel, now);
    assert forall|m: MessageView| ms.to_multiset().count(m) > 0 implies m.speaker == t.name@ by {
        assert(ms.contains(m));
    }
    if t.name@ == name {
        assert(said_by(ms.to_multiset(), name) =~= ms.to_multiset());
    } else {
        assert(said_by(ms.to_multiset(), name) =~= Multiset::<MessageView>::empty());
    }
}

proof fn turns_are_said_once<F>(
    names: Seq<Seq<char>>,
    states: Seq<StateView<F>>,
    trigger: ChatTrigger,
    channel: Seq<char>,
    now: u64,
    turns: Seq<Turn>,
    n: nat,
    name: Seq<char>,
)
    requires
        fitting_turns(turns, now),
        n <= turns.len(),
    ensures
        ({
            let mine = said_by(
                messages(names, states, trigger, channel, now, turns, n).to_multiset(),
                name,
            );
            mine == Multiset::<MessageView>::empty() || exists|k: int|
                0 <= k < n && (#[trigger] turns[k]).name@ == name && mine == turn_messages(
                    turns[k],
                    channel,
                    now,
                ).to_multiset()
        }),
    decreases n,
{
    broadcast use vstd::seq_lib::group_to_multiset_ensures;

    let empty = Multiset::<MessageView>::empty();
    if n == 0 {
        let none = messages(names, states, trigger, channel, now, turns, 0);
        assert(said_by(none.to_multiset(), name) =~= empty);
    } else {
        let t = turns[n - 1];
        let said = messages(names, states, trigger, channel, now, turns, (n - 1) as nat);
        turns_are_said_once(names, states, trigger, channel, now, turns, (n - 1) as nat, name);
        speakers_are_apart(said, turn_messages(t, channel, now), name);
        turns_are_by_their_speaker(t, channel, now, name);
        let before = said_by(said.to_multiset(), name);
        if t.name@ == name {
            assert(before == empty);
            assert(empty.add(turn_messages(t, channel, now).to_multiset()) =~= turn_messages(
                t,
                channel,
                now,
            ).to_multiset());
        } else {
            assert(before.add(empty) =~= before);
        }
    }
}

/// Of a trigger everyone says at most one thing, and corrects it at most once:
/// what comes of it by one speaker is nothing, or what one turn leads to.
pub proof fn everyone_speaks_at_most_once<F>(
    names: Seq<Seq<char>>,
    states: Seq<StateView<F>>,
    trigger: ChatTrigger,
    channel: Seq<char>,
    now: u64,
    turns: Seq<Turn>,
    all: Seq<PendingMessage>,
    name: Seq<char>,
)
    requires
        fitting_turns(turns, now),
        message_views(all) == messages(names, states, trigger, channel, now, turns, turns.len()),
    ensures
        ({
            let mine = said_by(message_views(maps::ranked_down(all)).to_multiset(), name);
            mine == Multiset::<MessageView>::empty() || exists|k: int|
                0 <= k < turns.len() && (#[trigger] turns[k]).name@ == name && mine
                    == turn_messages(turns[k], channel, now).to_multiset()
        }),
{
    ordering_keeps_messages(all);
    turns_are_said_once(names, states, trigger, channel, now, turns, turns.len(), name);
}

/// The messages of a queue that are due at one instant, in their order.
pub open spec fn due_at(q: Seq<PendingMessage>, t: u64) -> Seq<PendingMessage>
    decreases q.len(),
{
    if q.len() == 0 {
        q
    } else if q.last().emit_at == t {
        due_at(q.drop_last(), t).push(q.last())
    } else {
        due_at(q.drop_last(), t)
    }
}

proof fn due_at_adds(a: Seq<PendingMessage>, b: Seq<PendingMessage>, t: u64)
    ensures
        due_at(a + b, t) == due_at(a, t) + due_at(b, t),
    decreases b.len(),
{
    if b.len() == 0 {
        assert(a + b =~= a);
        assert(due_at(a, t) + due_at(b, t) =~= due_at(a, t));
    } else {
        due_at_adds(a, b.drop_last(), t);
        assert((a + b).drop_last() =~= a + b.drop_last());
        assert(due_at(a + b, t) =~= due_at(a, t) + due_at(b, t));
    }
}

proof fn none_due_at(q: Seq<PendingMessage>, t: u64)
    requires
        forall|i: int| 0 <= i < q.len() ==> (#[trigger] q[i]).emit_at != t,
    ensures
        due_at(q, t).len() == 0,
    decreases q.len(),
{
    if q.len() > 0 {
        none_due_at(q.drop_last(), t);
    }
}

/// Queueing keeps the queue in the order in which its messages are due.
pub proof fn queueing_keeps_order(q: Seq<PendingMessage>, messages: Seq<PendingMessage>)
    requires
        in_order(q),
    ensures
        in_order(queued(q, messages)),
    decreases messages.len(),
{
    if messages.len() > 0 {
        let before = queued(q, messages.drop_last());
        let m = messages.last();
        let p = due(before, m.emit_at) as int;
        queueing_keeps_order(q, messages.drop_last());
        due_splits(before, m.emit_at);
        let after = before.insert(p, m);
        assert forall|i: int, j: int| 0 <= i <= j < after.len() implies (#[trigger] after[i]).emit_at
            <= (#[trigger] after[j]).emit_at by {
            let i2 = if i < p { i } else { i - 1 };
            let j2 = if j < p { j } else { j - 1 };
            if i != p {
                assert(after[i] == before[i2]);
            }
            if j != p {
                assert(after[j] == before[j2]);
            }
            if i == p && j > p {
                assert(before[p].emit_at <= before[j2].emit_at);
            }
        }
    }
}

/// Queueing keeps the order of messages that are due at the same instant: those
/// that were queued before come first, then the new ones as they were given.
pub proof fn queueing_is_stable(q: Seq<PendingMessage>, messages: Seq<PendingMessage>, t: u64)
    requires
        in_order(q),
    ensures
        due_at(queued(q, messages), t) == due_at(q, t) + due_at(messages, t),
    decreases messages.len(),
{
    if messages.len() == 0 {
        assert(due_at(q, t) + due_at(messages, t) =~= due_at(q, t));
    } else {
        let before = queued(q, messages.drop_last());
        let m = messages.last();
        let p = due(before, m.emit_at) as int;
        queueing_keeps_order(q, messages.drop_last());
        queueing_is_stable(q, messages.drop_last(), t);
        due_splits(before, m.emit_at);
        let front = before.take(p);
        let back = before.skip(p);
        assert(before =~= front + back);
        assert(queued(q, messages) =~= front.push(m) + back);
        due_at_adds(front, back, t);
        due_at_adds(front.push(m), back, t);
        assert(front.push(m).drop_last() =~= front);
        if m.emit_at == t {
            assert forall|i: int| 0 <= i < back.len() implies (#[trigger] back[i]).emit_at != t by {
                assert(back[i] == before[p + i]);
                assert(before[p].emit_at > t);
            }
            none_due_at(back, t);
        }
        assert(due_at(queued(q, messages), t) =~= due_at(q, t) + due_at(messages, t));
    }
}

/// Of an ordered queue, draining takes exactly the messages that are due: what
/// it leaves is due later.
pub proof fn polling_takes_exactly_what_is_due(q: Seq<PendingMessage>, now: u64, i: int)
    requires
        in_order(q),
        0 <= i < q.len(),
    ensures
        i < due(q, now) <==> q[i].emit_at <= now,
{
    due_splits(q, now);
}

/// Queueing loses no message and makes none up.
pub proof fn queueing_keeps_every_message(
    q: Seq<PendingMessage>,
    messages: Seq<PendingMessage>,
)
    ensures
        queued(q, messages).len() == q.len() + messages.len(),
        queued(q, messages).to_multiset() == q.to_multiset().add(messages.to_multiset()),
    decreases messages.len(),
{
    broadcast use vstd::seq_lib::group_to_multiset_ensures;

    if messages.len() == 0 {
        assert(messages.to_multiset() =~= vstd::multiset::Multiset::empty());
        assert(q.to_multiset().add(messages.to_multiset()) =~= q.to_multiset());
    } else {
        let before = queued(q, messages.drop_last());
        let m = messages.last();
        queueing_keeps_every_message(q, messages.drop_last());
        due_splits(before, m.emit_at);
        assert(messages.drop_last().push(m) =~= messages);
        assert(queued(q, messages).to_multiset() =~= before.to_multiset().insert(m));
        assert(messages.to_multiset() =~= messages.drop_last().to_multiset().insert(m));
        assert(queued(q, messages).to_multiset() =~= q.to_multiset().add(messages.to_multiset()));
    }
}

/// The messages of a trigger come in the order in which they are due.
pub proof fn answers_come_in_order(all: Seq<PendingMessage>)
    ensures
        in_order(maps::ranked_down(all)),
        maps::ranked_down(all).to_multiset() == all.to_multiset(),
{
    maps::ranked_down_sorts(all);
    let r = maps::ranked_down(all);
    assert forall|i: int, j: int| 0 <= i <= j < r.len() implies (#[trigger] r[i]).emit_at <= (
    #[trigger] r[j]).emit_at by {
        assert(r[i].rank() >= r[j].rank());
    }
}

/// Nobody says twice what they still remember having said: a turn with a
/// remembered phrase leads to no message and changes nobody.
pub proof fn repeated_phrases_are_suppressed<F>(
    names: Seq<Seq<char>>,
    states: Seq<StateView<F>>,
    trigger: ChatTrigger,
    channel: Seq<char>,
    now: u64,
    turns: Seq<Turn>,
    n: nat,
    i: int,
)
    requires
        0 < n <= turns.len(),
        place(names, turns[n - 1].name@) == Some(i),
        after_turns(names, states, trigger, now, turns, (n - 1) as nat)[i].phrases.contains(
            phrase_number(turns[n - 1].text->0@),
        ),
    ensures
        after_turns(names, states, trigger, now, turns, n) == after_turns(
            names,
            states,
            trigger,
            now,
            turns,
            (n - 1) as nat,
        ),
        messages(names, states, trigger, channel, now, turns, n) == messages(
            names,
            states,
            trigger,
            channel,
            now,
            turns,
            (n - 1) as nat,
        ),
{
}

/// Once a character spoke of a topic, its pressure is gone and its cooldown
/// runs.
pub proof fn speaking_starts_the_cooldown<F>(
    s: StateView<F>,
    trigger: ChatTrigger,
    hash: u64,
    now: u64,
)
    requires
        trigger.spec_topic() is Some,
    ensures
        ({
            let t = spoken(s, trigger, hash, now);
            let topic = trigger.spec_topic()->0;
            &&& state::silent_of(t.counts, topic) == 0
            &&& t.cooldowns.dom().contains(topic.spec_number())
            &&& t.cooldowns[topic.spec_number()] == now
            &&& state::secs_between(t.cooldowns[topic.spec_number()], now)
                < topic.spec_cooldown()
            &&& t.phrases.contains(hash)
        }),
{
    let r = state::remembered(s.phrases, hash);
    assert(r[r.len() - 1] == hash);
}

/// A player who leaves is distracted until they are back.
pub proof fn leaving_and_returning_undo_each_other<F>(
    s: StateView<F>,
    name: Seq<char>,
    leave: ChatTrigger,
    back: ChatTrigger,
    t1: u64,
    t2: u64,
)
    requires
        leave matches ChatTrigger::RlDeparture { who, kind } && who@ == name,
        back matches ChatTrigger::RlReturn { who, missed } && who@ == name,
    ensures
        noticed(s, name, leave, t1).rl_active is Some,
        noticed(noticed(s, name, leave, t1), name, back, t2) == (StateView {
            rl_active: None,
            ..s
        }),
{
}

/// A character is found where the name first stands, and nowhere where it does not
/// stand.
pub proof fn characters_are_found_by_name(names: Seq<Seq<char>>, name: Seq<char>, i: int)
    requires
        0 <= i <= names.len(),
        forall|j: int| 0 <= j < i ==> names[j] != name,
        i < names.len() ==> names[i] == name,
    ensures
        i < names.len() ==> place(names, name) == Some(i),
        i == names.len() ==> place(names, name) is None,
    decreases names.len(),
{
    if names.len() > 0 {
        let d = names.drop_last();
        assert forall|j: int| 0 <= j < d.len() implies d[j] == names[j] by {}
        if i < d.len() {
            characters_are_found_by_name(d, name, i);
        } else {
            characters_are_found_by_name(d, name, d.len() as int);
        }
    }
}

} // verus!
