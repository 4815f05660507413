//! Multi-dimensional personality profiles.
use rand::rngs::StdRng;
use vstd::prelude::*;

use crate::chat::dice;
use crate::text;

verus! {

/// All personality dimensions are between zero and one. The named profiles give
/// them in hundredths.
pub struct PersonalityProfile<F> {
    /// How often this character speaks at all — gates most trigger responses.
    pub verbosity: F,
    /// When they do speak, how long/rich the message is.
    pub expressiveness: F,
    /// Tendency toward jokes, teasing, absurdist observations.
    pub humor: F,
    /// Optimistic vs cynical framing of the same event.
    pub positivity: F,
    /// How long bad events can accumulate before frustration shows.
    pub patience: F,
    /// How much this character notices and remarks on game mechanics.
    pub tactical_awareness: F,
    /// Real-life bleed-in tendency and investment in the group's social fabric.
    pub social_investment: F,
    /// Primary mode of expressing engagement.
    pub expression_mode: ExpressionMode,
    /// Text-level style traits.
    pub style: StyleTraits<F>,
    /// Named archetype for external reference and phrase pool selection.
    pub archetype: Archetype,
}

/// How a character primarily expresses that they're engaged and care.
#[derive(Debug, Clone, Copy, PartialEq, Eq, Structural)]
pub enum ExpressionMode {
    /// Expresses through words — narrates, reacts, tells stories.
    Verbal,
    /// Expresses through task callouts and actions. Silence is presence.
    Action,
    /// Situational — tactical when combat demands it, social in downtime.
    Mixed,
}

/// Text-level traits that produce authentic surface variation.
pub struct StyleTraits<F> {
    /// How often messages are fully lowercase.
    pub lowercase_tendency: F,
    /// Probability a given message contains profanity.
    pub profanity_rate: F,
    /// Tendency to use game/chat abbreviations (brb, afk, oom, inc, gg).
    pub abbreviation_rate: F,
    /// Signature filler or reaction word unique to this character.
    pub signature_filler: Option<String>,
    /// Fraction of messages left as sentence fragments vs complete thoughts.
    pub fragment_tendency: F,
    /// Probability a typo gets corrected with a follow-up message.
    pub typo_correction_rate: F,
    /// Average seconds before this character responds after a trigger.
    pub base_response_delay_secs: F,
}

/// Named archetypes, used for phrase pool selection and relationship logic.
#[derive(Debug, Clone, Copy, PartialEq, Eq, Hash, Structural)]
pub enum Archetype {
    /// Quiet action-expresser. Heals, calls targets, acts instead of narrating.
    QuietAnchor,
    /// Verbose narrator. Weaves real life into game chat without apology.
    ChaoticNarrator,
    /// Efficient raid leader. Loot-caller, terse coordinator.
    RaidLeader,
    /// Mostly reactive. Says very little unless directly involved.
    ReactiveObserver,
    /// Tactical commentator. Notes positioning, ability usage, group comp.
    TacticalFocused,
    /// Doesn't fit a named archetype — use generic phrase pools.
    Custom,
}

impl Archetype {
    /// The name under which phrase pools know the archetype.
    pub open spec fn spec_name(self) -> Seq<char> {
        match self {
            Archetype::QuietAnchor => "QuietAnchor"@,
            Archetype::ChaoticNarrator => "ChaoticNarrator"@,
            Archetype::RaidLeader => "RaidLeader"@,
            Archetype::ReactiveObserver => "ReactiveObserver"@,
            Archetype::TacticalFocused => "TacticalFocused"@,
            Archetype::Custom => "Custom"@,
        }
    }

    /// The name under which phrase pools know the archetype.
    pub fn name(&self) -> (r: &'static str)
        ensures
            r@ == self.spec_name(),
    {
        match self {
            Archetype::QuietAnchor => "QuietAnchor",
            Archetype::ChaoticNarrator => "ChaoticNarrator",
            Archetype::RaidLeader => "RaidLeader",
            Archetype::ReactiveObserver => "ReactiveObserver",
            Archetype::TacticalFocused => "TacticalFocused",
            Archetype::Custom => "Custom",
        }
    }
}

/// The numbers of a profile, in hundredths; the delay in whole seconds.
pub struct ProfileNumbers {
    pub verbosity: u16,
    pub expressiveness: u16,
    pub humor: u16,
    pub positivity: u16,
    pub patience: u16,
    pub tactical_awareness: u16,
    pub social_investment: u16,
    pub lowercase_tendency: u16,
    pub profanity_rate: u16,
    pub abbreviation_rate: u16,
    pub fragment_tendency: u16,
    pub typo_correction_rate: u16,
    pub base_response_delay_secs: u16,
}

/// Whether a profile has these numbers, this filler, this mode and archetype.
pub open spec fn is_profile(
    p: PersonalityProfile<u16>,
    n: ProfileNumbers,
    filler: Option<Seq<char>>,
    mode: ExpressionMode,
    archetype: Archetype,
) -> bool {
    &&& p.verbosity == n.verbosity
    &&& p.expressiveness == n.expressiveness
    &&& p.humor == n.humor
    &&& p.positivity == n.positivity
    &&& p.patience == n.patience
    &&& p.tactical_awareness == n.tactical_awareness
    &&& p.social_investment == n.social_investment
    &&& p.expression_mode == mode
    &&& p.style.lowercase_tendency == n.lowercase_tendency
    &&& p.style.profanity_rate == n.profanity_rate
    &&& p.style.abbreviation_rate == n.abbreviation_rate
    &&& text::opt_view(p.style.signature_filler) == filler
    &&& p.style.fragment_tendency == n.fragment_tendency
    &&& p.style.typo_correction_rate == n.typo_correction_rate
    &&& p.style.base_response_delay_secs == n.base_response_delay_secs
    &&& p.archetype == archetype
}

/// The numbers of the quiet anchor.
pub open spec fn quiet_anchor_numbers() -> ProfileNumbers {
    ProfileNumbers {
        verbosity: 28,
        expressiveness: 18,
        humor: 40,
        positivity: 62,
        patience: 78,
        tactical_awareness: 82,
        social_investment: 45,
        lowercase_tendency: 85,
        profanity_rate: 15,
        abbreviation_rate: 72,
        fragment_tendency: 88,
        typo_correction_rate: 60,
        base_response_delay_secs: 13,
    }
}

/// The numbers of the chaotic narrator.
pub open spec fn chaotic_narrator_numbers() -> ProfileNumbers {
    ProfileNumbers {
        verbosity: 78,
        expressiveness: 88,
        humor: 65,
        positivity: 60,
        patience: 58,
        tactical_awareness: 65,
        social_investment: 92,
        lowercase_tendency: 38,
        profanity_rate: 38,
        abbreviation_rate: 44,
        fragment_tendency: 38,
        typo_correction_rate: 28,
        base_response_delay_secs: 11,
    }
}

/// The numbers of the raid leader.
pub open spec fn raid_leader_numbers() -> ProfileNumbers {
    ProfileNumbers {
        verbosity: 48,
        expressiveness: 32,
        humor: 30,
        positivity: 55,
        patience: 72,
        tactical_awareness: 90,
        social_investment: 28,
        lowercase_tendency: 50,
        profanity_rate: 10,
        abbreviation_rate: 62,
        fragment_tendency: 72,
        typo_correction_rate: 18,
        base_response_delay_secs: 11,
    }
}

/// The numbers of the reactive observer.
pub open spec fn reactive_observer_numbers() -> ProfileNumbers {
    ProfileNumbers {
        verbosity: 18,
        expressiveness: 25,
        humor: 25,
        positivity: 58,
        patience: 80,
        tactical_awareness: 55,
        social_investment: 22,
        lowercase_tendency: 60,
        profanity_rate: 12,
        abbreviation_rate: 55,
        fragment_tendency: 80,
        typo_correction_rate: 15,
        base_response_delay_secs: 5,
    }
}

/// Whether `p` is the named profile of an archetype.
pub open spec fn is_named(p: PersonalityProfile<u16>, a: Archetype) -> bool {
    match a {
        Archetype::QuietAnchor => is_profile(
            p,
            quiet_anchor_numbers(),
            Some("heh"@),
            ExpressionMode::Action,
            a,
        ),
        Archetype::ChaoticNarrator => is_profile(
            p,
            chaotic_narrator_numbers(),
            Some("yeah buddy"@),
            ExpressionMode::Verbal,
            a,
        ),
        Archetype::RaidLeader => is_profile(
            p,
            raid_leader_numbers(),
            Some("lol"@),
            ExpressionMode::Mixed,
            a,
        ),
        Archetype::ReactiveObserver => is_profile(
            p,
            reactive_observer_numbers(),
            None,
            ExpressionMode::Mixed,
            a,
        ),
        _ => false,
    }
}

/// Of ten equal chances three go to the quiet anchor, three to the chaotic
/// narrator, two to the raid leader and two to the reactive observer.
pub open spec fn archetype_drawn(d: int) -> Archetype {
    if d <= 2 {
        Archetype::QuietAnchor
    } else if d <= 5 {
        Archetype::ChaoticNarrator
    } else if d <= 7 {
        Archetype::RaidLeader
    } else {
        Archetype::ReactiveObserver
    }
}

impl PersonalityProfile<u16> {
    /// Action-expresser, terse, lowercase, dry.
    pub fn quiet_anchor() -> (r: Self)
        ensures
            is_named(r, Archetype::QuietAnchor),
    {
        PersonalityProfile {
            verbosity: 28,
            expressiveness: 18,
            humor: 40,
            positivity: 62,
            patience: 78,
            tactical_awareness: 82,
            social_investment: 45,
            expression_mode: ExpressionMode::Action,
            style: StyleTraits {
                lowercase_tendency: 85,
                profanity_rate: 15,
                abbreviation_rate: 72,
                signature_filler: Some("heh".to_owned()),
                fragment_tendency: 88,
                typo_correction_rate: 60,
                base_response_delay_secs: 13,
            },
            archetype: Archetype::QuietAnchor,
        }
    }

    /// Verbose narrator, real life bleeds in.
    pub fn chaotic_narrator() -> (r: Self)
        ensures
            is_named(r, Archetype::ChaoticNarrator),
    {
        PersonalityProfile {
            verbosity: 78,
            expressiveness: 88,
            humor: 65,
            positivity: 60,
            patience: 58,
            tactical_awareness: 65,
            social_investment: 92,
            expression_mode: ExpressionMode::Verbal,
            style: StyleTraits {
                lowercase_tendency: 38,
                profanity_rate: 38,
                abbreviation_rate: 44,
                signature_filler: Some("yeah buddy".to_owned()),
                fragment_tendency: 38,
                typo_correction_rate: 28,
                base_response_delay_secs: 11,
            },
            archetype: Archetype::ChaoticNarrator,
        }
    }

    /// Efficient raid leader, loot-caller, brief.
    pub fn raid_leader() -> (r: Self)
        ensures
            is_named(r, Archetype::RaidLeader),
    {
        PersonalityProfile {
            verbosity: 48,
            expressiveness: 32,
            humor: 30,
            positivity: 55,
            patience: 72,
            tactical_awareness: 90,
            social_investment: 28,
            expression_mode: ExpressionMode::Mixed,
            style: StyleTraits {
                lowercase_tendency: 50,
                profanity_rate: 10,
                abbreviation_rate: 62,
                signature_filler: Some("lol".to_owned()),
                fragment_tendency: 72,
                typo_correction_rate: 18,
                base_response_delay_secs: 11,
            },
            archetype: Archetype::RaidLeader,
        }
    }

    /// Mostly quiet; reacts when directly involved, and then fast.
    pub fn reactive_observer() -> (r: Self)
        ensures
            is_named(r, Archetype::ReactiveObserver),
    {
        PersonalityProfile {
            verbosity: 18,
            expressiveness: 25,
            humor: 25,
            positivity: 58,
            patience: 80,
            tactical_awareness: 55,
            social_investment: 22,
            expression_mode: ExpressionMode::Mixed,
            style: StyleTraits {
                lowercase_tendency: 60,
                profanity_rate: 12,
                abbreviation_rate: 55,
                signature_filler: None,
                fragment_tendency: 80,
                typo_correction_rate: 15,
                base_response_delay_secs: 5,
            },
            archetype: Archetype::ReactiveObserver,
        }
    }

    /// The profile that a draw out of ten gives.
    pub fn drawn(d: u8) -> (r: Self)
        ensures
            is_named(r, archetype_drawn(d as int)),
    {
        if d <= 2 {
            Self::quiet_anchor()
        } else if d <= 5 {
            Self::chaotic_narrator()
        } else if d <= 7 {
            Self::raid_leader()
        } else {
            Self::reactive_observer()
        }
    }

    /// Weighted random selection.
    pub fn random(rng: &mut StdRng) -> (r: Self)
        ensures
            exists|d: int| 0 <= d < 10 && is_named(r, #[trigger] archetype_drawn(d)),
    {
        let d: u8 = dice::draw_byte(rng, 0, 10);
        proof {
            assert(0 <= d < 10 && archetype_drawn(d as int) == archetype_drawn(d as int));
        }
        Self::drawn(d)
    }
}

/// The narrator talks most and cares most for company, the leader sees most of
/// the fight, the observer talks least and answers soonest, and the anchor
/// expresses least and answers last, in action rather than words.
pub proof fn archetypes_differ_as_they_should(
    anchor: PersonalityProfile<u16>,
    narrator: PersonalityProfile<u16>,
    leader: PersonalityProfile<u16>,
    observer: PersonalityProfile<u16>,
)
    requires
        is_named(anchor, Archetype::QuietAnchor),
        is_named(narrator, Archetype::ChaoticNarrator),
        is_named(leader, Archetype::RaidLeader),
        is_named(observer, Archetype::ReactiveObserver),
    ensures
        narrator.verbosity > leader.verbosity > anchor.verbosity > observer.verbosity,
        narrator.expressiveness > leader.expressiveness > observer.expressiveness
            > anchor.expressiveness,
        narrator.social_investment > anchor.social_investment > leader.social_investment
            > observer.social_investment,
        leader.tactical_awareness > anchor.tactical_awareness > narrator.tactical_awareness
            > observer.tactical_awareness,
        narrator.humor > anchor.humor > leader.humor > observer.humor,
        observer.patience > anchor.patience > leader.patience > narrator.patience,
        anchor.style.base_response_delay_secs > narrator.style.base_response_delay_secs
            > observer.style.base_response_delay_secs,
        leader.style.base_response_delay_secs == narrator.style.base_response_delay_secs,
        anchor.style.fragment_tendency > observer.style.fragment_tendency
            > leader.style.fragment_tendency > narrator.style.fragment_tendency,
        anchor.style.lowercase_tendency > observer.style.lowercase_tendency
            > leader.style.lowercase_tendency > narrator.style.lowercase_tendency,
        anchor.expression_mode == ExpressionMode::Action,
        narrator.expression_mode == ExpressionMode::Verbal,
        observer.style.signature_filler is None,
        anchor.style.signature_filler is Some && narrator.style.signature_filler is Some
            && leader.style.signature_filler is Some,
{
}

/// Of ten draws, which are equally likely, three give the anchor, three the
/// narrator, two the leader and two the observer.
pub proof fn archetypes_are_drawn_by_their_share(d: int)
    requires
        0 <= d < 10,
    ensures
        archetype_drawn(d) == Archetype::QuietAnchor <==> d < 3,
        archetype_drawn(d) == Archetype::ChaoticNarrator <==> 3 <= d < 3 + 3,
        archetype_drawn(d) == Archetype::RaidLeader <==> 6 <= d < 6 + 2,
        archetype_drawn(d) == Archetype::ReactiveObserver <==> 8 <= d < 8 + 2,
{
}

} // verus!
