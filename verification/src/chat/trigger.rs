//! What may cause a character to speak.
use vstd::prelude::*;

use crate::chat::state::{ChatTopic, RlKind};

verus! {

/// An event that may cause one or more characters to speak.
#[derive(Debug, Clone)]
pub enum ChatTrigger {
    /// A mob was killed; `clean` if there were no deaths and no panic heals.
    MobKilled { mob: String, killer: String, clean: bool },
    /// A player character died.
    PlayerDied { who: String, cause: String },
    /// A player is critically low on HP.
    PlayerNearDeath { who: String, hp_pct: u8 },
    /// A healer saved a low-HP player in time.
    NearDeathSave { healer: String, target: String },
    /// A notably large hit landed (spell or melee).
    BigHit { src: String, tgt: String, dmg: u32, ability: String },
    /// A spell was resisted. `nth` = how many resists in a row for this mob.
    SpellResisted { caster: String, mob: String, spell: String, nth: u32 },
    /// Full group wipe.
    Wipe,
    /// N kills in a row without any deaths or panic.
    CleanStreak { kills: u32 },
    /// Tank is critically low.
    TankLowHp { player: String, hp_pct: u8 },
    /// Healer mana is dropping.
    HealerLowMana { player: String, mana_pct: u8 },
    /// A caster has gone fully OOM.
    CasterOom { player: String },
    /// Pull incoming — puller announcing.
    Incoming { count: u32, mob: String, puller: String },
    /// An add appeared or broke from CC.
    Add { mob: String },
    /// A player has been hitting the same mob and missing repeatedly.
    RepeatMiss { player: String, mob: String, count: u32 },
    /// Desirable loot dropped.
    GoodLoot { item: String, recipient: String },
    /// Disappointing loot dropped.
    BadLoot { item: String },
    /// A player leveled up.
    LevelUp { who: String, level: u8 },
    /// Currency dropped from a corpse.
    CurrencyDrop { amount_pp: u32 },
    /// A player is stepping away (food, bathroom, family, etc.).
    RlDeparture { who: String, kind: RlKind },
    /// A player has returned from a real-life interruption, with a summary of
    /// notable events while they were gone.
    RlReturn { who: String, missed: Vec<String> },
    /// Player is at keyboard but partially distracted.
    RlDistraction { who: String },
    /// A new player joined the group.
    PlayerJoined { who: String },
    /// A player left the group.
    PlayerLeft { who: String },
    /// Session has been running for a while — fatigue chat starts appearing.
    LongSession { minutes: u32 },
    /// Nothing is happening — idle downtime.
    Idle,
    /// One character reacting to something another character just said.
    ReactTo { speaker: String, class: ReactionClass, text: String },
    /// N consecutive resists on the same mob.
    ResistStreak { mob: String, count: u32 },
    /// The same player has died N times this session.
    DeathStreak { who: String, count: u32 },
}

/// What kind of social content the reactor is responding to.
#[derive(Debug, Clone, Copy, PartialEq, Eq, Structural)]
pub enum ReactionClass {
    /// Something went wrong — complaints, frustration.
    Complaint,
    /// Something went well — excitement, celebration.
    Excitement,
    /// A question directed at the group.
    Question,
    /// An announcement (going AFK, be right back, coming online).
    Announcement,
    /// Teasing or joking aimed at the reactor.
    Teasing,
    /// A real-life story or update from another player.
    RlStory,
    /// A tactical callout that may need acknowledgment.
    TacticalCallout,
}

impl ChatTrigger {
    /// The chat topic category this trigger maps to, for cooldown tracking.
    pub open spec fn spec_topic(self) -> Option<ChatTopic> {
        match self {
            ChatTrigger::MobKilled { .. } => Some(ChatTopic::Slay),
            ChatTrigger::CleanStreak { .. } => Some(ChatTopic::Slay),
            ChatTrigger::PlayerDied { .. } => Some(ChatTopic::Death),
            ChatTrigger::Wipe => Some(ChatTopic::Death),
            ChatTrigger::PlayerNearDeath { .. } => Some(ChatTopic::NearDeath),
            ChatTrigger::TankLowHp { .. } => Some(ChatTopic::NearDeath),
            ChatTrigger::SpellResisted { .. } => Some(ChatTopic::Resist),
            ChatTrigger::ResistStreak { .. } => Some(ChatTopic::Resist),
            ChatTrigger::HealerLowMana { .. } => Some(ChatTopic::LowMana),
            ChatTrigger::CasterOom { .. } => Some(ChatTopic::LowMana),
            ChatTrigger::GoodLoot { .. } => Some(ChatTopic::Loot),
            ChatTrigger::BadLoot { .. } => Some(ChatTopic::Loot),
            ChatTrigger::LevelUp { .. } => Some(ChatTopic::LevelUp),
            ChatTrigger::Incoming { .. } => Some(ChatTopic::Incoming),
            ChatTrigger::RlDeparture { .. } => Some(ChatTopic::RealLife),
            ChatTrigger::RlReturn { .. } => Some(ChatTopic::RealLife),
            ChatTrigger::Idle => Some(ChatTopic::Banter),
            _ => None,
        }
    }

    /// The chat topic category this trigger maps to, for cooldown tracking.
    pub fn topic(&self) -> (r: Option<ChatTopic>)
        ensures
            r == self.spec_topic(),
    {
        match self {
            ChatTrigger::MobKilled { .. } => Some(ChatTopic::Slay),
            ChatTrigger::CleanStreak { .. } => Some(ChatTopic::Slay),
            ChatTrigger::PlayerDied { .. } => Some(ChatTopic::Death),
            ChatTrigger::Wipe => Some(ChatTopic::Death),
            ChatTrigger::PlayerNearDeath { .. } => Some(ChatTopic::NearDeath),
            ChatTrigger::TankLowHp { .. } => Some(ChatTopic::NearDeath),
            ChatTrigger::SpellResisted { .. } => Some(ChatTopic::Resist),
            ChatTrigger::ResistStreak { .. } => Some(ChatTopic::Resist),
            ChatTrigger::HealerLowMana { .. } => Some(ChatTopic::LowMana),
            ChatTrigger::CasterOom { .. } => Some(ChatTopic::LowMana),
            ChatTrigger::GoodLoot { .. } => Some(ChatTopic::Loot),
            ChatTrigger::BadLoot { .. } => Some(ChatTopic::Loot),
            ChatTrigger::LevelUp { .. } => Some(ChatTopic::LevelUp),
            ChatTrigger::Incoming { .. } => Some(ChatTopic::Incoming),
            ChatTrigger::RlDeparture { .. } => Some(ChatTopic::RealLife),
            ChatTrigger::RlReturn { .. } => Some(ChatTopic::RealLife),
            ChatTrigger::Idle => Some(ChatTopic::Banter),
            _ => None,
        }
    }

    /// Urgency level 0–3. High urgency bypasses some cooldowns and
    /// increases the chance that quiet characters will respond.
    pub open spec fn spec_urgency(self) -> u8 {
        match self {
            ChatTrigger::Wipe => 3,
            ChatTrigger::PlayerDied { .. } => 3,
            ChatTrigger::TankLowHp { .. } => 3,
            ChatTrigger::NearDeathSave { .. } => 2,
            ChatTrigger::PlayerNearDeath { .. } => 2,
            ChatTrigger::ResistStreak { count, .. } => if count >= 3 {
                2
            } else {
                1
            },
            ChatTrigger::DeathStreak { count, .. } => if count >= 2 {
                2
            } else {
                1
            },
            ChatTrigger::LevelUp { .. } => 2,
            ChatTrigger::GoodLoot { .. } => 2,
            ChatTrigger::Idle => 0,
            _ => 1,
        }
    }

    /// Urgency level 0–3.
    pub fn urgency(&self) -> (r: u8)
        ensures
            r == self.spec_urgency(),
            r <= 3,
    {
        match self {
            ChatTrigger::Wipe => 3,
            ChatTrigger::PlayerDied { .. } => 3,
            ChatTrigger::TankLowHp { .. } => 3,
            ChatTrigger::NearDeathSave { .. } => 2,
            ChatTrigger::PlayerNearDeath { .. } => 2,
            ChatTrigger::ResistStreak { count, .. } => if *count >= 3 {
                2
            } else {
                1
            },
            ChatTrigger::DeathStreak { count, .. } => if *count >= 2 {
                2
            } else {
                1
            },
            ChatTrigger::LevelUp { .. } => 2,
            ChatTrigger::GoodLoot { .. } => 2,
            ChatTrigger::Idle => 0,
            _ => 1,
        }
    }
}

} // verus!
