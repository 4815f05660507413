//! What a character remembers: interruptions, cooldowns, what was said.
use std::collections::HashMap;
use std::collections::VecDeque;
use vstd::prelude::*;

verus! {

/// Nanoseconds in a second: times are in nanoseconds.
pub const SECOND: u64 = 1_000_000_000;

/// How many phrases a character remembers having said.
pub const PHRASE_MEMORY: usize = 48;

/// Continuous emotions, each between zero and one.
#[derive(Debug, Clone, Copy)]
pub struct Mood<F> {
    /// Accumulated frustration: deaths, resist streaks, bad loot, slow pulls.
    pub frustration: F,
    /// Current morale: clean kills, good loot, level ups, clean streaks.
    pub morale: F,
    /// Session fatigue: accumulates slowly over hours.
    pub fatigue: F,
    /// Combat engagement: spikes during active fights, falls in downtime.
    pub engagement: F,
}

/// By how many hundredths an event moves a mood, each emotion staying between
/// zero and one.
#[derive(Debug, Clone, Copy, PartialEq, Eq, Structural)]
pub struct MoodShift {
    pub frustration: i8,
    pub morale: i8,
    pub engagement: i8,
}

/// What happened to a character's group.
#[derive(Debug, Clone, Copy, PartialEq, Eq, Structural)]
pub enum GameEvent {
    Slay,
    Death,
    Resist,
    GoodLoot,
    BadLoot,
    LevelUp,
    NearDeath,
    Wipe,
    CleanStreak,
}

impl GameEvent {
    /// How the event moves everyone's mood.
    pub open spec fn spec_shift(self) -> MoodShift {
        match self {
            GameEvent::Slay => MoodShift { frustration: -4 as i8, morale: 8, engagement: 35 },
            GameEvent::Death => MoodShift { frustration: 30, morale: -20 as i8, engagement: 0 },
            GameEvent::Resist => MoodShift { frustration: 10, morale: 0, engagement: 0 },
            GameEvent::GoodLoot => MoodShift { frustration: 0, morale: 18, engagement: 0 },
            GameEvent::BadLoot => MoodShift { frustration: 4, morale: 0, engagement: 0 },
            GameEvent::LevelUp => MoodShift { frustration: -15 as i8, morale: 40, engagement: 0 },
            GameEvent::NearDeath => MoodShift { frustration: 12, morale: 0, engagement: 50 },
            GameEvent::Wipe => MoodShift { frustration: 50, morale: -35 as i8, engagement: 0 },
            GameEvent::CleanStreak => MoodShift { frustration: -10 as i8, morale: 15, engagement: 0 },
        }
    }

    /// How the event moves everyone's mood.
    pub fn shift(&self) -> (r: MoodShift)
        ensures
            r == self.spec_shift(),
    {
        match self {
            GameEvent::Slay => MoodShift { frustration: -4, morale: 8, engagement: 35 },
            GameEvent::Death => MoodShift { frustration: 30, morale: -20, engagement: 0 },
            GameEvent::Resist => MoodShift { frustration: 10, morale: 0, engagement: 0 },
            GameEvent::GoodLoot => MoodShift { frustration: 0, morale: 18, engagement: 0 },
            GameEvent::BadLoot => MoodShift { frustration: 4, morale: 0, engagement: 0 },
            GameEvent::LevelUp => MoodShift { frustration: -15, morale: 40, engagement: 0 },
            GameEvent::NearDeath => MoodShift { frustration: 12, morale: 0, engagement: 50 },
            GameEvent::Wipe => MoodShift { frustration: 50, morale: -35, engagement: 0 },
            GameEvent::CleanStreak => MoodShift { frustration: -10, morale: 15, engagement: 0 },
        }
    }

    /// The topic on which the event builds up pressure to speak.
    pub open spec fn spec_counted(self) -> Option<ChatTopic> {
        match self {
            GameEvent::Slay => Some(ChatTopic::Slay),
            GameEvent::Death => Some(ChatTopic::Death),
            GameEvent::Resist => Some(ChatTopic::Resist),
            GameEvent::GoodLoot => Some(ChatTopic::Loot),
            GameEvent::BadLoot => Some(ChatTopic::Loot),
            _ => None,
        }
    }

    /// The topic on which the event builds up pressure to speak.
    pub fn counted(&self) -> (r: Option<ChatTopic>)
        ensures
            r == self.spec_counted(),
    {
        match self {
            GameEvent::Slay => Some(ChatTopic::Slay),
            GameEvent::Death => Some(ChatTopic::Death),
            GameEvent::Resist => Some(ChatTopic::Resist),
            GameEvent::GoodLoot => Some(ChatTopic::Loot),
            GameEvent::BadLoot => Some(ChatTopic::Loot),
            _ => None,
        }
    }
}

/// Summarized emotional context — drives which phrase variant is selected.
#[derive(Debug, Clone, Copy, PartialEq, Eq, Structural)]
pub enum EmotionalRegister {
    /// High frustration: terse, dark, or passive-aggressive
    Frustrated,
    /// High morale: enthusiastic, hype, celebratory
    Elated,
    /// High fatigue: slower, quieter, "one more pull" energy
    Tired,
    /// High engagement: sharp, fast, in-the-moment
    Engaged,
    /// Baseline: normal conversational tone
    Neutral,
}

impl EmotionalRegister {
    /// The name under which phrase pools know the register.
    pub open spec fn spec_name(self) -> Seq<char> {
        match self {
            EmotionalRegister::Frustrated => "Frustrated"@,
            EmotionalRegister::Elated => "Elated"@,
            EmotionalRegister::Tired => "Tired"@,
            EmotionalRegister::Engaged => "Engaged"@,
            EmotionalRegister::Neutral => "Neutral"@,
        }
    }

    /// The name under which phrase pools know the register.
    pub fn name(&self) -> (r: &'static str)
        ensures
            r@ == self.spec_name(),
    {
        match self {
            EmotionalRegister::Frustrated => "Frustrated",
            EmotionalRegister::Elated => "Elated",
            EmotionalRegister::Tired => "Tired",
            EmotionalRegister::Engaged => "Engaged",
            EmotionalRegister::Neutral => "Neutral",
        }
    }

    /// The register, from whether frustration, morale, fatigue and engagement
    /// are high: frustration wins over morale, morale over fatigue, fatigue
    /// over engagement.
    pub fn of(frustrated: bool, elated: bool, tired: bool, engaged: bool) -> (r: EmotionalRegister)
        ensures
            r == EmotionalRegister::Frustrated <==> frustrated,
            r == EmotionalRegister::Elated <==> !frustrated && elated,
            r == EmotionalRegister::Tired <==> !frustrated && !elated && tired,
            r == EmotionalRegister::Engaged <==> !frustrated && !elated && !tired && engaged,
            r == EmotionalRegister::Neutral <==> !frustrated && !elated && !tired && !engaged,
    {
        if frustrated {
            EmotionalRegister::Frustrated
        } else if elated {
            EmotionalRegister::Elated
        } else if tired {
            EmotionalRegister::Tired
        } else if engaged {
            EmotionalRegister::Engaged
        } else {
            EmotionalRegister::Neutral
        }
    }
}

/// Topics tracked for cooldown and silent-count pressure.
#[derive(Debug, Clone, Copy, PartialEq, Eq, Hash, Structural)]
pub enum ChatTopic {
    Resist,
    Slay,
    Loot,
    Death,
    NearDeath,
    LowMana,
    LevelUp,
    Incoming,
    RealLife,
    Banter,
    Wipe,
    CleanStreak,
}

impl ChatTopic {
    /// A number for each topic, no two the same.
    pub open spec fn spec_number(self) -> u64 {
        match self {
            ChatTopic::Resist => 0,
            ChatTopic::Slay => 1,
            ChatTopic::Loot => 2,
            ChatTopic::Death => 3,
            ChatTopic::NearDeath => 4,
            ChatTopic::LowMana => 5,
            ChatTopic::LevelUp => 6,
            ChatTopic::Incoming => 7,
            ChatTopic::RealLife => 8,
            ChatTopic::Banter => 9,
            ChatTopic::Wipe => 10,
            ChatTopic::CleanStreak => 11,
        }
    }

    /// A number for each topic, no two the same.
    pub fn number(&self) -> (r: u64)
        ensures
            r == self.spec_number(),
    {
        match self {
            ChatTopic::Resist => 0,
            ChatTopic::Slay => 1,
            ChatTopic::Loot => 2,
            ChatTopic::Death => 3,
            ChatTopic::NearDeath => 4,
            ChatTopic::LowMana => 5,
            ChatTopic::LevelUp => 6,
            ChatTopic::Incoming => 7,
            ChatTopic::RealLife => 8,
            ChatTopic::Banter => 9,
            ChatTopic::Wipe => 10,
            ChatTopic::CleanStreak => 11,
        }
    }

    /// For how many seconds the topic is suppressed once it was spoken of.
    pub open spec fn spec_cooldown(self) -> u64 {
        match self {
            ChatTopic::Slay => 45,
            ChatTopic::Resist => 30,
            ChatTopic::Death => 20,
            ChatTopic::Loot => 60,
            ChatTopic::LevelUp => 5,
            ChatTopic::NearDeath => 15,
            ChatTopic::LowMana => 25,
            ChatTopic::Incoming => 8,
            ChatTopic::Wipe => 10,
            ChatTopic::Banter => 90,
            ChatTopic::RealLife => 120,
            ChatTopic::CleanStreak => 120,
        }
    }

    /// For how many seconds the topic is suppressed once it was spoken of.
    pub fn cooldown(&self) -> (r: u64)
        ensures
            r == self.spec_cooldown(),
    {
        match self {
            ChatTopic::Slay => 45,
            ChatTopic::Resist => 30,
            ChatTopic::Death => 20,
            ChatTopic::Loot => 60,
            ChatTopic::LevelUp => 5,
            ChatTopic::NearDeath => 15,
            ChatTopic::LowMana => 25,
            ChatTopic::Incoming => 8,
            ChatTopic::Wipe => 10,
            ChatTopic::Banter => 90,
            ChatTopic::RealLife => 120,
            ChatTopic::CleanStreak => 120,
        }
    }
}

/// An active real-life interruption.
#[derive(Debug, Clone, Copy, PartialEq, Eq, Structural)]
pub struct RlEvent {
    pub kind: RlKind,
    /// When it started, in nanoseconds.
    pub started: u64,
    /// Expected duration — actual end time may differ.
    pub expected_duration_secs: u32,
}

/// Types of real-life interruptions.
#[derive(Debug, Clone, Copy, PartialEq, Eq, Structural)]
pub enum RlKind {
    /// Getting food or drink
    Food,
    /// Bathroom break
    Bathroom,
    /// Phone call or text
    Phone,
    /// Family member needing attention (child, partner, parent)
    Family,
    /// Pet needing attention
    Pet,
    /// Household chore (dishes, laundry, etc.)
    Chores,
    /// Partial distraction — still at keyboard but attention divided
    Distraction,
}

impl RlKind {
    pub open spec fn spec_duration(self) -> u32 {
        match self {
            RlKind::Bathroom => 90,
            RlKind::Food => 300,
            RlKind::Phone => 240,
            RlKind::Family => 600,
            RlKind::Pet => 120,
            RlKind::Chores => 480,
            RlKind::Distraction => 60,
        }
    }

    /// Typical duration in seconds for this type of interruption.
    pub fn typical_duration_secs(&self) -> (r: u32)
        ensures
            r == self.spec_duration(),
    {
        match self {
            RlKind::Bathroom => 90,
            RlKind::Food => 300,
            RlKind::Phone => 240,
            RlKind::Family => 600,
            RlKind::Pet => 120,
            RlKind::Chores => 480,
            RlKind::Distraction => 60,
        }
    }

    pub open spec fn spec_weight(self) -> u32 {
        match self {
            RlKind::Food => 25,
            RlKind::Bathroom => 20,
            RlKind::Distraction => 20,
            RlKind::Family => 18,
            RlKind::Phone => 10,
            RlKind::Pet => 5,
            RlKind::Chores => 2,
        }
    }

    /// Probability weight for random event selection.
    /// Sums to 100 for easy percentage reasoning.
    pub fn weight(&self) -> (r: u32)
        ensures
            r == self.spec_weight(),
    {
        match self {
            RlKind::Food => 25,
            RlKind::Bathroom => 20,
            RlKind::Distraction => 20,
            RlKind::Family => 18,
            RlKind::Phone => 10,
            RlKind::Pet => 5,
            RlKind::Chores => 2,
        }
    }
}

/// Dynamic per-character state. Updated by game events and time passage.
pub struct CharacterState<F> {
    pub mood: Mood<F>,
    /// Active real-life interruption, if any.
    pub rl_active: Option<RlEvent>,
    /// When this character last produced a chat message.
    pub last_spoke: Option<u64>,
    /// When each topic, by its number, was last spoken of.
    pub topic_cooldowns: HashMap<u64, u64>,
    /// Rolling buffer of the hashes of recently emitted phrases.
    pub recent_phrases: VecDeque<u64>,
    /// Count of events of each topic, by its number, since it was last spoken of.
    pub silent_event_counts: HashMap<u64, u32>,
}

/// What a character's state holds.
pub struct StateView<F> {
    pub mood: Mood<F>,
    pub rl_active: Option<RlEvent>,
    pub last_spoke: Option<u64>,
    pub cooldowns: Map<u64, u64>,
    pub phrases: Seq<u64>,
    pub counts: Map<u64, u32>,
}

impl<F> View for CharacterState<F> {
    type V = StateView<F>;

    open spec fn view(&self) -> StateView<F> {
        StateView {
            mood: self.mood,
            rl_active: self.rl_active,
            last_spoke: self.last_spoke,
            cooldowns: self.topic_cooldowns@,
            phrases: self.recent_phrases@,
            counts: self.silent_event_counts@,
        }
    }
}

/// Whole seconds from `then` to `now`; none where the clock went back.
pub open spec fn secs_between(then: u64, now: u64) -> nat {
    if now < then {
        0
    } else {
        ((now - then) / SECOND as int) as nat
    }
}

/// Whole seconds from `then` to `now`.
pub fn elapsed_secs(then: u64, now: u64) -> (r: u64)
    ensures
        r == secs_between(then, now),
{
    if now < then {
        0
    } else {
        (now - then) / SECOND
    }
}

/// How often a topic came up since it was last spoken of.
pub open spec fn silent_of(counts: Map<u64, u32>, topic: ChatTopic) -> u32 {
    if counts.dom().contains(topic.spec_number()) {
        counts[topic.spec_number()]
    } else {
        0
    }
}

/// What is remembered of the phrases said, once one more is said.
pub open spec fn remembered(phrases: Seq<u64>, hash: u64) -> Seq<u64> {
    if phrases.len() >= PHRASE_MEMORY {
        phrases.skip(1).push(hash)
    } else {
        phrases.push(hash)
    }
}

impl<F> StateView<F> {
    /// Whether an event can be counted.
    pub open spec fn has_room_for(self, event: GameEvent) -> bool {
        event.spec_counted() matches Some(t) ==> silent_of(self.counts, t) < u32::MAX
    }

    /// The state once an event was counted.
    pub open spec fn after(self, event: GameEvent) -> StateView<F> {
        match event.spec_counted() {
            Some(t) => StateView {
                counts: self.counts.insert(
                    t.spec_number(),
                    (silent_of(self.counts, t) + 1) as u32,
                ),
                ..self
            },
            None => self,
        }
    }
}

impl<F> CharacterState<F> {
    /// A character who has not said anything yet.
    pub fn new(mood: Mood<F>) -> (r: Self)
        ensures
            r@ == (StateView {
                mood,
                rl_active: None,
                last_spoke: None,
                cooldowns: Map::empty(),
                phrases: Seq::empty(),
                counts: Map::empty(),
            }),
    {
        CharacterState {
            mood,
            rl_active: None,
            last_spoke: None,
            topic_cooldowns: HashMap::new(),
            recent_phrases: VecDeque::new(),
            silent_event_counts: HashMap::new(),
        }
    }

    /// Ends an interruption that has lasted as long as expected.
    pub fn expire_rl_event(&mut self, now: u64)
        ensures
            *final(self) == (CharacterState {
                rl_active: match old(self).rl_active {
                    Some(ev) => if secs_between(ev.started, now) >= ev.expected_duration_secs {
                        None
                    } else {
                        Some(ev)
                    },
                    None => None,
                },
                ..*old(self)
            }),
    {
        if let Some(ev) = self.rl_active {
            if elapsed_secs(ev.started, now) >= ev.expected_duration_secs as u64 {
                self.rl_active = None;
            }
        }
    }

    /// Counts an event that nothing was said of yet; returns how it moves the
    /// mood.
    pub fn on_event(&mut self, event: GameEvent) -> (r: MoodShift)
        requires
            old(self)@.has_room_for(event),
        ensures
            final(self)@ == old(self)@.after(event),
            r == event.spec_shift(),
    {
        broadcast use vstd::std_specs::hash::group_hash_axioms;

        if let Some(topic) = event.counted() {
            let n: u32 = self.silent_count(&topic);
            self.silent_event_counts.insert(topic.number(), n + 1);
        }
        event.shift()
    }

    /// A kill: it counts as unspoken of, and moves the mood as returned.
    pub fn on_slay(&mut self) -> (r: MoodShift)
        requires
            old(self)@.has_room_for(GameEvent::Slay),
        ensures
            final(self)@ == old(self)@.after(GameEvent::Slay),
            r == GameEvent::Slay.spec_shift(),
    {
        self.on_event(GameEvent::Slay)
    }

    /// A death: it counts as unspoken of, and moves the mood as returned.
    pub fn on_death(&mut self) -> (r: MoodShift)
        requires
            old(self)@.has_room_for(GameEvent::Death),
        ensures
            final(self)@ == old(self)@.after(GameEvent::Death),
            r == GameEvent::Death.spec_shift(),
    {
        self.on_event(GameEvent::Death)
    }

    /// A resisted spell: it counts as unspoken of, and moves the mood as returned.
    pub fn on_resist(&mut self) -> (r: MoodShift)
        requires
            old(self)@.has_room_for(GameEvent::Resist),
        ensures
            final(self)@ == old(self)@.after(GameEvent::Resist),
            r == GameEvent::Resist.spec_shift(),
    {
        self.on_event(GameEvent::Resist)
    }

    /// Good loot: it counts as unspoken of, and moves the mood as returned.
    pub fn on_good_loot(&mut self) -> (r: MoodShift)
        requires
            old(self)@.has_room_for(GameEvent::GoodLoot),
        ensures
            final(self)@ == old(self)@.after(GameEvent::GoodLoot),
            r == GameEvent::GoodLoot.spec_shift(),
    {
        self.on_event(GameEvent::GoodLoot)
    }

    /// Bad loot: it counts as unspoken of, and moves the mood as returned.
    pub fn on_bad_loot(&mut self) -> (r: MoodShift)
        requires
            old(self)@.has_room_for(GameEvent::BadLoot),
        ensures
            final(self)@ == old(self)@.after(GameEvent::BadLoot),
            r == GameEvent::BadLoot.spec_shift(),
    {
        self.on_event(GameEvent::BadLoot)
    }

    /// A level gained: it moves the mood as returned.
    pub fn on_level_up(&mut self) -> (r: MoodShift)
        ensures
            final(self)@ == old(self)@.after(GameEvent::LevelUp),
            r == GameEvent::LevelUp.spec_shift(),
    {
        self.on_event(GameEvent::LevelUp)
    }

    /// A close call: it moves the mood as returned.
    pub fn on_near_death(&mut self) -> (r: MoodShift)
        ensures
            final(self)@ == old(self)@.after(GameEvent::NearDeath),
            r == GameEvent::NearDeath.spec_shift(),
    {
        self.on_event(GameEvent::NearDeath)
    }

    /// A wipe: it moves the mood as returned.
    pub fn on_wipe(&mut self) -> (r: MoodShift)
        ensures
            final(self)@ == old(self)@.after(GameEvent::Wipe),
            r == GameEvent::Wipe.spec_shift(),
    {
        self.on_event(GameEvent::Wipe)
    }

    /// A streak of clean pulls: it moves the mood as returned.
    pub fn on_clean_streak(&mut self) -> (r: MoodShift)
        ensures
            final(self)@ == old(self)@.after(GameEvent::CleanStreak),
            r == GameEvent::CleanStreak.spec_shift(),
    {
        self.on_event(GameEvent::CleanStreak)
    }

    pub fn start_rl_event(&mut self, kind: RlKind, now: u64)
        ensures
            *final(self) == (CharacterState {
                rl_active: Some(
                    RlEvent {
                        kind,
                        started: now,
                        expected_duration_secs: kind.spec_duration(),
                    },
                ),
                ..*old(self)
            }),
    {
        let secs: u32 = kind.typical_duration_secs();
        self.rl_active = Some(RlEvent { kind, started: now, expected_duration_secs: secs });
    }

    pub fn end_rl_event(&mut self) -> (r: Option<RlEvent>)
        ensures
            r == old(self).rl_active,
            *final(self) == (CharacterState { rl_active: None, ..*old(self) }),
    {
        let was = self.rl_active;
        self.rl_active = None;
        was
    }

    pub fn is_rl_distracted(&self) -> (r: bool)
        ensures
            r == self.rl_active is Some,
    {
        self.rl_active.is_some()
    }

    /// Whether a phrase with this hash was not said lately.
    pub fn phrase_is_fresh(&self, hash: u64) -> (r: bool)
        ensures
            r == !self.recent_phrases@.contains(hash),
    {
        let n: usize = self.recent_phrases.len();
        let mut i: usize = 0;
        while i < n
            invariant
                n == self.recent_phrases@.len(),
                i <= n,
                forall|j: int| 0 <= j < i ==> self.recent_phrases@[j] != hash,
            decreases n - i,
        {
            if self.recent_phrases[i] == hash {
                proof {
                    assert(self.recent_phrases@[i as int] == hash);
                }
                return false;
            }
            i += 1;
        }
        true
    }

    /// Remembers a phrase; the oldest is forgotten where memory is full.
    pub fn record_phrase(&mut self, hash: u64)
        ensures
            final(self).recent_phrases@ == remembered(old(self).recent_phrases@, hash),
            final(self).mood == old(self).mood,
            final(self).rl_active == old(self).rl_active,
            final(self).last_spoke == old(self).last_spoke,
            final(self).topic_cooldowns == old(self).topic_cooldowns,
            final(self).silent_event_counts == old(self).silent_event_counts,
    {
        let n: usize = self.recent_phrases.len();
        if n >= PHRASE_MEMORY {
            self.recent_phrases.pop_front();
            proof {
                assert(self.recent_phrases@ =~= old(self).recent_phrases@.skip(1));
            }
        }
        self.recent_phrases.push_back(hash);
    }

    /// Whether a topic was spoken of less than `cooldown_secs` ago.
    pub open spec fn cooling(&self, topic: ChatTopic, cooldown_secs: u64, now: u64) -> bool {
        let m = self.topic_cooldowns@;
        m.dom().contains(topic.spec_number()) && secs_between(m[topic.spec_number()], now)
            < cooldown_secs
    }

    /// Whether a topic was spoken of less than `cooldown_secs` ago.
    pub fn topic_on_cooldown(&self, topic: &ChatTopic, cooldown_secs: u64, now: u64) -> (r: bool)
        ensures
            r == self.cooling(*topic, cooldown_secs, now),
    {
        broadcast use vstd::std_specs::hash::group_hash_axioms;

        match self.topic_cooldowns.get(&topic.number()) {
            Some(t) => elapsed_secs(*t, now) < cooldown_secs,
            None => false,
        }
    }

    /// Starts a topic's cooldown and resets the pressure that silence built up.
    pub fn mark_topic_spoken(&mut self, topic: ChatTopic, now: u64)
        ensures
            final(self).topic_cooldowns@ == old(self).topic_cooldowns@.insert(
                topic.spec_number(),
                now,
            ),
            final(self).silent_event_counts@ == old(self).silent_event_counts@.remove(
                topic.spec_number(),
            ),
            final(self).mood == old(self).mood,
            final(self).rl_active == old(self).rl_active,
            final(self).last_spoke == old(self).last_spoke,
            final(self).recent_phrases == old(self).recent_phrases,
    {
        broadcast use vstd::std_specs::hash::group_hash_axioms;

        self.topic_cooldowns.insert(topic.number(), now);
        self.silent_event_counts.remove(&topic.number());
    }

    /// How many times has this event type fired without a comment?
    pub fn silent_count(&self, topic: &ChatTopic) -> (r: u32)
        ensures
            r == silent_of(self.silent_event_counts@, *topic),
    {
        broadcast use vstd::std_specs::hash::group_hash_axioms;

        match self.silent_event_counts.get(&topic.number()) {
            Some(n) => *n,
            None => 0,
        }
    }

    pub fn mark_spoke(&mut self, now: u64)
        ensures
            *final(self) == (CharacterState { last_spoke: Some(now), ..*old(self) }),
    {
        self.last_spoke = Some(now);
    }

    /// Seconds since the character last spoke.
    pub fn secs_since_spoke(&self, now: u64) -> (r: Option<u64>)
        ensures
            match r {
                Some(s) => self.last_spoke matches Some(t) && s == secs_between(t, now),
                None => self.last_spoke is None,
            },
    {
        match self.last_spoke {
            Some(t) => Some(elapsed_secs(t, now)),
            None => None,
        }
    }
}

// ── Laws ────────────────────────────────────────────────────────────────────

/// The weights of the interruptions sum to a hundred.
pub proof fn weights_sum_to_hundred()
    ensures
        RlKind::Food.spec_weight() + RlKind::Bathroom.spec_weight()
            + RlKind::Distraction.spec_weight() + RlKind::Family.spec_weight()
            + RlKind::Phone.spec_weight() + RlKind::Pet.spec_weight()
            + RlKind::Chores.spec_weight() == 100,
{
}

/// No two topics share a number, so that each has its own cooldown and count.
pub proof fn topics_are_told_apart(a: ChatTopic, b: ChatTopic)
    ensures
        a.spec_number() == b.spec_number() <==> a == b,
{
}

/// What is remembered of the phrases said, once more are said one after another.
pub open spec fn remembered_all(phrases: Seq<u64>, said: Seq<u64>) -> Seq<u64>
    decreases said.len(),
{
    if said.len() == 0 {
        phrases
    } else {
        remembered(remembered_all(phrases, said.drop_last()), said.last())
    }
}

/// Memory holds the latest phrases, at most as many as it has room for, the
/// oldest first.
pub proof fn memory_holds_the_latest(phrases: Seq<u64>, said: Seq<u64>)
    requires
        phrases.len() <= PHRASE_MEMORY,
    ensures
        remembered_all(phrases, said).len() <= PHRASE_MEMORY,
        phrases.len() + said.len() <= PHRASE_MEMORY ==> remembered_all(phrases, said) == phrases
            + said,
        phrases.len() + said.len() > PHRASE_MEMORY ==> remembered_all(phrases, said) == (phrases
            + said).skip(phrases.len() + said.len() - PHRASE_MEMORY),
    decreases said.len(),
{
    if said.len() == 0 {
        assert(phrases + said =~= phrases);
    } else {
        memory_holds_the_latest(phrases, said.drop_last());
        let now = remembered_all(phrases, said);
        let total = phrases.len() + said.len();
        assert((phrases + said).drop_last() =~= phrases + said.drop_last());
        if total <= PHRASE_MEMORY {
            assert(now =~= phrases + said);
        } else {
            assert(now =~= (phrases + said).skip(total - PHRASE_MEMORY));
        }
    }
}

/// A phrase is stale until as many others were said after it as memory has room
/// for, and then fresh.
pub proof fn phrases_are_forgotten_in_turn(phrases: Seq<u64>, hash: u64, others: Seq<u64>)
    requires
        phrases.len() <= PHRASE_MEMORY,
        !others.contains(hash),
    ensures
        others.len() < PHRASE_MEMORY ==> remembered_all(
            phrases,
            seq![hash] + others,
        ).contains(hash),
        others.len() >= PHRASE_MEMORY ==> !remembered_all(
            phrases,
            seq![hash] + others,
        ).contains(hash),
{
    let said = seq![hash] + others;
    let all = phrases + said;
    let now = remembered_all(phrases, said);
    memory_holds_the_latest(phrases, said);
    let cut = if all.len() <= PHRASE_MEMORY {
        0
    } else {
        all.len() - PHRASE_MEMORY
    };
    assert(all.skip(0) =~= all);
    assert(now == all.skip(cut));
    if others.len() < PHRASE_MEMORY {
        let k = phrases.len() - cut;
        assert(now[k] == all[phrases.len() as int]);
        assert(all[phrases.len() as int] == hash);
    } else {
        assert forall|k: int| 0 <= k < now.len() implies now[k] != hash by {
            assert(now[k] == all[cut + k]);
            assert(all[cut + k] == others[cut + k - phrases.len() - 1]);
        }
    }
}

/// A phrase just said is not fresh, and memory never outgrows its bound.
pub proof fn said_phrases_are_remembered(phrases: Seq<u64>, hash: u64)
    requires
        phrases.len() <= PHRASE_MEMORY,
    ensures
        remembered(phrases, hash).contains(hash),
        remembered(phrases, hash).len() <= PHRASE_MEMORY,
{
    let r = remembered(phrases, hash);
    assert(r[r.len() - 1] == hash);
}

/// A phrase that was said stays remembered until as many others were said as
/// memory holds: saying another one only forgets the oldest.
pub proof fn only_the_oldest_is_forgotten(phrases: Seq<u64>, hash: u64, i: int)
    requires
        phrases.len() <= PHRASE_MEMORY,
        0 < i < phrases.len(),
    ensures
        remembered(phrases, hash).contains(phrases[i]),
{
    let r = remembered(phrases, hash);
    if phrases.len() >= PHRASE_MEMORY {
        assert(r[i - 1] == phrases[i]);
    } else {
        assert(r[i] == phrases[i]);
    }
}

} // verus!
