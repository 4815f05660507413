//! What a backend is told of a situation.
use vstd::prelude::*;

use crate::chat::personality::{Archetype, ExpressionMode};
use crate::chat::relationship::RelDynamic;
use crate::chat::state::EmotionalRegister;

verus! {

/// A recent message observed in the channel, used as conversational context.
pub struct RecentMessage<F> {
    /// Name of the speaker.
    pub speaker: String,
    /// Verbatim message text.
    pub text: String,
    /// Approximate seconds since this message was sent.
    pub secs_ago: F,
}

/// A named slot of a template and what fills it.
pub struct Slot {
    pub name: String,
    pub value: String,
}

/// The name and the value of a slot.
pub open spec fn slot_view(s: Slot) -> (Seq<char>, Seq<char>) {
    (s.name@, s.value@)
}

/// The names and the values of slots.
pub open spec fn slot_views(v: Seq<Slot>) -> Seq<(Seq<char>, Seq<char>)> {
    v.map_values(|s: Slot| slot_view(s))
}

/// Full situational snapshot assembled at trigger-dispatch time.
pub struct SituationContext<F> {
    /// Canonical trigger kind string (e.g. `"MobKilled"`, `"SpellResisted"`).
    pub trigger_kind: &'static str,
    /// Named template slots (e.g. `"mob"` → `"Yael"`, `"dmg"` → `"2340"`).
    pub slots: Vec<Slot>,
    /// The speaking character's named archetype.
    pub archetype: Archetype,
    /// Current emotional register, derived from continuous state.
    pub register: EmotionalRegister,
    pub verbosity: F,
    pub humor: F,
    pub positivity: F,
    pub patience: F,
    pub tactical_awareness: F,
    pub social_investment: F,
    pub expression_mode: ExpressionMode,
    pub frustration: F,
    pub morale: F,
    pub fatigue: F,
    /// Structural dynamic of the speaker's relationship to the trigger's
    /// primary other participant (healer, killer, target, etc.).
    pub relationship: Option<RelDynamic>,
    /// Current zone name. `None` if the caller has not provided it.
    pub zone: Option<String>,
    /// Number of characters currently registered in the engine.
    pub group_size: u8,
    /// Last N messages observed in the channel, oldest first.
    pub recent_messages: Vec<RecentMessage<F>>,
}

} // verus!
