//! How the characters relate to each other.
use vstd::prelude::*;

use crate::maps;
use crate::maps::TextMap;
use crate::single;
use crate::single::Single;
use crate::text;

verus! {

/// The relationship from one character's perspective toward another, each level
/// by the bits of a single-precision number from 0 to 1. Asymmetric by design — A may trust B more than B trusts A.
#[derive(Debug, Clone, Copy, PartialEq, Eq, Structural)]
pub struct Relationship {
    /// General trust level: 0 = strangers, the top of the scale = close friends.
    pub trust: Single,
    /// Familiarity with their playstyle and patterns.
    pub familiarity: Single,
    /// Current session warmth. Builds with positive interactions, drops with
    /// friction.
    pub rapport: Single,
    /// The structural dynamic of this relationship.
    pub dynamic: RelDynamic,
}

/// The structural pattern of how two characters relate.
#[derive(Debug, Clone, Copy, PartialEq, Eq, Structural)]
pub enum RelDynamic {
    /// One narrates/acts, the other listens and enables. High trust.
    EstablishedDuo,
    /// Standard groupmates who've played together before.
    Teammates,
    /// Haven't played together this session before.
    Strangers,
    /// Competitive but cooperative.
    Rivals,
}

/// The top of the scale.
pub const FULL: u32 = 0x3f80_0000;

/// The bits of the levels that are counted with, by their hundredths.
pub const LEVEL_10: u32 = 0x3dcc_cccd;

pub const LEVEL_20: u32 = 0x3e4c_cccd;

pub const LEVEL_30: u32 = 0x3e99_999a;

pub const LEVEL_40: u32 = 0x3ecc_cccd;

pub const LEVEL_45: u32 = 0x3ee6_6666;

pub const LEVEL_50: u32 = 0x3f00_0000;

pub const LEVEL_55: u32 = 0x3f0c_cccd;

pub const LEVEL_60: u32 = 0x3f19_999a;

pub const LEVEL_65: u32 = 0x3f26_6666;

pub const LEVEL_70: u32 = 0x3f33_3333;

pub const LEVEL_72: u32 = 0x3f38_51ec;

pub const LEVEL_90: u32 = 0x3f66_6666;

/// What a good experience adds to rapport: 0.05.
pub const GAIN: u32 = 0x3d4c_cccd;

/// What friction takes from rapport: 0.08.
pub const LOSS: u32 = 0x3da3_d70a;

impl Relationship {
    /// The relationship that a dynamic starts with.
    pub open spec fn initial(dynamic: RelDynamic) -> Relationship {
        match dynamic {
            RelDynamic::EstablishedDuo => Relationship {
                trust: LEVEL_90,
                familiarity: LEVEL_90,
                rapport: LEVEL_70,
                dynamic,
            },
            RelDynamic::Teammates => Relationship {
                trust: LEVEL_55,
                familiarity: LEVEL_50,
                rapport: LEVEL_50,
                dynamic,
            },
            RelDynamic::Strangers => Relationship {
                trust: LEVEL_20,
                familiarity: LEVEL_10,
                rapport: LEVEL_30,
                dynamic,
            },
            RelDynamic::Rivals => Relationship {
                trust: LEVEL_40,
                familiarity: LEVEL_72,
                rapport: LEVEL_45,
                dynamic,
            },
        }
    }

    /// Whether the levels are on the scale.
    pub open spec fn on_scale(self) -> bool {
        self.trust <= FULL && self.familiarity <= FULL && self.rapport <= FULL
    }

    /// Construct a relationship with defaults matching the dynamic type.
    pub fn new(dynamic: RelDynamic) -> (r: Self)
        ensures
            r == Relationship::initial(dynamic),
            r.on_scale(),
    {
        match dynamic {
            RelDynamic::EstablishedDuo => Relationship {
                trust: LEVEL_90,
                familiarity: LEVEL_90,
                rapport: LEVEL_70,
                dynamic,
            },
            RelDynamic::Teammates => Relationship {
                trust: LEVEL_55,
                familiarity: LEVEL_50,
                rapport: LEVEL_50,
                dynamic,
            },
            RelDynamic::Strangers => Relationship {
                trust: LEVEL_20,
                familiarity: LEVEL_10,
                rapport: LEVEL_30,
                dynamic,
            },
            RelDynamic::Rivals => Relationship {
                trust: LEVEL_40,
                familiarity: LEVEL_72,
                rapport: LEVEL_45,
                dynamic,
            },
        }
    }

    /// Whether this relationship permits real-life stories and bleed-in chat.
    pub open spec fn rl_bleed(self) -> bool {
        self.trust >= LEVEL_60
    }

    /// Whether this relationship permits real-life stories and bleed-in chat.
    pub fn permits_rl_bleed(&self) -> (r: bool)
        ensures
            r == self.rl_bleed(),
    {
        self.trust >= LEVEL_60
    }

    /// Whether the listener's silence is comfortable, not a social void to fill.
    pub open spec fn comfortable(self) -> bool {
        self.dynamic == RelDynamic::EstablishedDuo && self.trust > LEVEL_70
    }

    /// Whether the listener's silence is comfortable, not a social void to fill.
    pub fn silence_is_comfortable(&self) -> (r: bool)
        ensures
            r == self.comfortable(),
    {
        self.dynamic == RelDynamic::EstablishedDuo && self.trust > LEVEL_70
    }

    /// Whether teasing lands as affection rather than aggression.
    pub open spec fn warm_tease(self) -> bool {
        self.trust > LEVEL_65 && self.familiarity > LEVEL_50
    }

    /// Whether teasing lands as affection rather than aggression.
    pub fn tease_reads_as_warmth(&self) -> (r: bool)
        ensures
            r == self.warm_tease(),
    {
        self.trust > LEVEL_65 && self.familiarity > LEVEL_50
    }

    /// Whether this character would comment on the other's performance.
    pub fn performance_commentary_ok(&self) -> (r: bool)
        ensures
            r == (self.familiarity > LEVEL_45 && self.trust > LEVEL_40),
    {
        self.familiarity > LEVEL_45 && self.trust > LEVEL_40
    }

    /// Whether this character would react to the other's real-life story.
    pub open spec fn story_reaction(self) -> bool {
        self.trust > LEVEL_55
    }

    /// Whether this character would react to the other's real-life story.
    pub fn reacts_to_rl_story(&self) -> (r: bool)
        ensures
            r == self.story_reaction(),
    {
        self.trust > LEVEL_55
    }

    /// Rapport grows by five hundredths, up to the top of the scale.
    pub fn on_positive_interaction(&mut self)
        requires
            old(self).rapport < single::TOO_LARGE,
        ensures
            ({
                let sum = single::nearest(single::value(old(self).rapport) + single::value(GAIN));
                single::value(final(self).rapport) == if sum > single::value(FULL) {
                    single::value(FULL)
                } else {
                    sum
                }
            }),
            final(self).rapport <= FULL,
            *final(self) == (Relationship { rapport: final(self).rapport, ..*old(self) }),
            old(self).on_scale() ==> final(self).on_scale(),
    {
        let sum: Single = single::plus(self.rapport, GAIN);
        proof {
            if sum > FULL {
                single::bits_are_in_order(FULL, sum);
            } else if sum < FULL {
                single::bits_are_in_order(sum, FULL);
            }
        }
        self.rapport = if sum > FULL {
            FULL
        } else {
            sum
        };
    }

    /// Rapport drops by eight hundredths, down to zero.
    pub fn on_friction(&mut self)
        requires
            old(self).rapport < single::TOO_LARGE,
        ensures
            single::value(final(self).rapport) == if single::value(old(self).rapport)
                < single::value(LOSS) {
                0
            } else {
                single::nearest(
                    (single::value(old(self).rapport) - single::value(LOSS)) as nat,
                )
            },
            *final(self) == (Relationship { rapport: final(self).rapport, ..*old(self) }),
            old(self).on_scale() ==> final(self).on_scale(),
    {
        if self.rapport < LOSS {
            proof {
                single::bits_are_in_order(self.rapport, LOSS);
                assert(0 * single::power(0) == 0);
            }
            self.rapport = 0;
        } else {
            let rest: Single = single::minus(self.rapport, LOSS);
            proof {
                gap_is_small(self.rapport, LOSS, rest);
            }
            self.rapport = rest;
        }
    }

    /// Between-session decay: rapport moves three tenths of the way toward the
    /// trust baseline, and not past it.
    pub fn session_decay(&mut self)
        requires
            old(self).rapport < single::TOO_LARGE,
            old(self).trust < single::TOO_LARGE,
        ensures
            single::value(final(self).rapport) == drifted(
                single::value(old(self).rapport),
                single::value(old(self).trust),
            ),
            *final(self) == (Relationship { rapport: final(self).rapport, ..*old(self) }),
            old(self).on_scale() ==> final(self).on_scale(),
            old(self).rapport <= old(self).trust ==> old(self).rapport <= final(self).rapport
                <= old(self).trust,
            old(self).rapport >= old(self).trust ==> old(self).rapport >= final(self).rapport
                >= old(self).trust,
    {
        let ghost (r, t) = (single::value(self.rapport), single::value(self.trust));
        if self.trust >= self.rapport {
            let gap: Single = single::minus(self.trust, self.rapport);
            proof {
                gap_is_small(self.trust, self.rapport, gap);
            }
            let part: Single = single::times(gap, single::THREE_TENTHS);
            proof {
                part_is_small(self.trust, self.rapport, gap, part);
            }
            let moved: Single = single::plus(self.rapport, part);
            proof {
                single::rounding_keeps_the_order(r + single::value(part), self.rapport);
                single::rounding_keeps_the_order(r + single::value(part), self.trust);
                in_bit_order(self.rapport, moved);
                in_bit_order(moved, self.trust);
            }
            self.rapport = moved;
        } else {
            let gap: Single = single::minus(self.rapport, self.trust);
            proof {
                gap_is_small(self.rapport, self.trust, gap);
            }
            let part: Single = single::times(gap, single::THREE_TENTHS);
            proof {
                part_is_small(self.rapport, self.trust, gap, part);
            }
            let moved: Single = single::minus(self.rapport, part);
            proof {
                let n = (r - single::value(part)) as nat;
                single::rounding_keeps_the_order(n, self.rapport);
                single::rounding_keeps_the_order(n, self.trust);
                in_bit_order(moved, self.rapport);
                in_bit_order(self.trust, moved);
            }
            self.rapport = moved;
        }
    }
}

/// Where rapport of `r` units moves with trust of `t` units: by the nearest
/// number to three tenths of the nearest number to their difference, to the
/// nearest number.
pub open spec fn drifted(r: nat, t: nat) -> nat {
    if t >= r {
        single::nearest(
            r + single::nearest_product(
                single::nearest((t - r) as nat),
                single::value(single::THREE_TENTHS),
            ),
        )
    } else {
        single::nearest(
            (r - single::nearest_product(
                single::nearest((r - t) as nat),
                single::value(single::THREE_TENTHS),
            )) as nat,
        )
    }
}

/// A number that is no larger has no larger bits.
proof fn in_bit_order(x: Single, y: Single)
    requires
        single::value(x) <= single::value(y),
    ensures
        x <= y,
{
    if y < x {
        single::bits_are_in_order(y, x);
    }
}

/// The difference of two numbers is no larger than the larger one.
proof fn gap_is_small(x: Single, y: Single, gap: Single)
    requires
        y <= x < single::TOO_LARGE,
        single::value(x) >= single::value(y),
        single::value(gap) == single::nearest((single::value(x) - single::value(y)) as nat),
    ensures
        gap <= x,
{
    single::rounding_keeps_the_order((single::value(x) - single::value(y)) as nat, x);
    in_bit_order(gap, x);
}

/// Three tenths of the difference of two numbers are no more than the difference.
proof fn part_is_small(x: Single, y: Single, gap: Single, part: Single)
    requires
        single::value(x) >= single::value(y),
        gap <= x < single::TOO_LARGE,
        single::value(gap) == single::nearest((single::value(x) - single::value(y)) as nat),
        single::value(part) == single::nearest_product(
            single::value(gap),
            single::value(single::THREE_TENTHS),
        ),
    ensures
        part <= x,
        single::value(part) <= single::value(x) - single::value(y),
{
    single::products_are_smaller(gap, single::THREE_TENTHS);
    in_bit_order(part, gap);
    single::three_tenths_are_less_than_half(gap);
    single::rounding_at_most_doubles((single::value(x) - single::value(y)) as nat);
}

/// Directed relationship graph for the full group or raid.
/// Key is (from, to) — the perspective of the speaker toward the target.
pub struct RelationshipGraph {
    pairs: TextMap<(String, String), Relationship>,
}

impl View for RelationshipGraph {
    type V = Map<Seq<Seq<char>>, Relationship>;

    closed spec fn view(&self) -> Map<Seq<Seq<char>>, Relationship> {
        self.pairs@
    }
}

/// The key of a perspective.
pub open spec fn toward(from: Seq<char>, to: Seq<char>) -> Seq<Seq<char>> {
    seq![from, to]
}

impl RelationshipGraph {
    /// Every perspective, in the order in which they were first set.
    pub closed spec fn entries(&self) -> Seq<((String, String), Relationship)> {
        self.pairs.entries()
    }

    pub fn new() -> (r: Self)
        ensures
            r@ == Map::<Seq<Seq<char>>, Relationship>::empty(),
    {
        RelationshipGraph { pairs: TextMap::new() }
    }

    /// Set the relationship from `from` toward `to`.
    pub fn set(&mut self, from: &str, to: &str, rel: Relationship)
        ensures
            final(self)@ == old(self)@.insert(toward(from@, to@), rel),
    {
        let key = (from.to_owned(), to.to_owned());
        self.pairs.insert(key, rel);
    }

    /// Get the relationship from `from`'s perspective toward `to`.
    pub fn get(&self, from: &str, to: &str) -> (r: Option<&Relationship>)
        ensures
            match r {
                Some(rel) => self@.dom().contains(toward(from@, to@)) && *rel == self@[toward(
                    from@,
                    to@,
                )],
                None => !self@.dom().contains(toward(from@, to@)),
            },
    {
        let key = (from.to_owned(), to.to_owned());
        self.pairs.get(&key)
    }

    /// The relationship from `from`'s perspective toward `to`, to be changed in
    /// place.
    pub fn get_mut(&mut self, from: &str, to: &str) -> (r: Option<&mut Relationship>)
        ensures
            match r {
                Some(rel) => {
                    &&& old(self)@.dom().contains(toward(from@, to@))
                    &&& *rel == old(self)@[toward(from@, to@)]
                    &&& final(self)@ == old(self)@.insert(toward(from@, to@), *final(rel))
                },
                None => {
                    &&& !old(self)@.dom().contains(toward(from@, to@))
                    &&& final(self)@ == old(self)@
                },
            },
    {
        let key = (from.to_owned(), to.to_owned());
        self.pairs.get_mut(&key)
    }

    /// Establish a symmetric relationship between two characters.
    pub fn set_symmetric(&mut self, a: &str, b: &str, dynamic: RelDynamic)
        ensures
            final(self)@ == old(self)@.insert(
                toward(a@, b@),
                Relationship::initial(dynamic),
            ).insert(toward(b@, a@), Relationship::initial(dynamic)),
    {
        self.set(a, b, Relationship::new(dynamic));
        self.set(b, a, Relationship::new(dynamic));
    }

    /// Establish an established-duo relationship between talker and listener.
    pub fn set_established_duo(&mut self, talker: &str, listener: &str)
        ensures
            final(self)@ == old(self)@.insert(
                toward(talker@, listener@),
                Relationship::initial(RelDynamic::EstablishedDuo),
            ).insert(
                toward(listener@, talker@),
                Relationship::initial(RelDynamic::EstablishedDuo),
            ),
    {
        self.set(talker, listener, Relationship::new(RelDynamic::EstablishedDuo));
        self.set(listener, talker, Relationship::new(RelDynamic::EstablishedDuo));
    }

    /// True if `speaker` would permit real life to bleed in when `target` is
    /// present.
    pub fn rl_permitted_toward(&self, speaker: &str, target: &str) -> (r: bool)
        ensures
            r == (self@.dom().contains(toward(speaker@, target@)) && self@[toward(
                speaker@,
                target@,
            )].rl_bleed()),
    {
        match self.get(speaker, target) {
            Some(rel) => rel.permits_rl_bleed(),
            None => false,
        }
    }

    /// The average rapport that this speaker has across all known relationships,
    /// summed up in their order; half of the scale where they know nobody.
    pub fn average_rapport(&self, speaker: &str) -> (r: Single)
        requires
            held_by(self.entries(), speaker@).len() <= 0x100_0000,
            forall|i: int|
                0 <= i < held_by(self.entries(), speaker@).len() ==> (#[trigger] held_by(
                    self.entries(),
                    speaker@,
                )[i]).rapport <= FULL,
        ensures
            self@ == maps::map_of(self.entries()),
            maps::distinct_keys(self.entries()),
            ({
                let known = held_by(self.entries(), speaker@);
                if known.len() == 0 {
                    r == LEVEL_50
                } else {
                    single::value(r) == single::nearest_ratio(total_rapport(known), known.len())
                }
            }),
    {
        let n: usize = self.pairs.len();
        let mut total: Single = 0;
        let mut count: u32 = 0;
        let mut i: usize = 0;
        let ghost all = self.entries();
        let ghost known = held_by(all, speaker@);
        let ghost one = single::power(single::UNIT as nat);
        proof {
            assert(0 * single::power(0) == 0);
            single::one_in_units();
        }
        while i < n
            invariant
                n == all.len(),
                all == self.pairs.entries(),
                known == held_by(all, speaker@),
                known.len() <= 0x100_0000,
                forall|i: int|
                    0 <= i < known.len() ==> (#[trigger] known[i]).rapport <= FULL,
                one == single::power(single::UNIT as nat),
                single::value(FULL) == one,
                i <= n,
                count == held_by(all.take(i as int), speaker@).len(),
                count <= 0x100_0000,
                single::value(total) == total_rapport(held_by(all.take(i as int), speaker@)),
                single::value(total) <= count * one,
            decreases n - i,
        {
            let ghost before = held_by(all.take(i as int), speaker@);
            proof {
                assert(all.take(i + 1).drop_last() =~= all.take(i as int));
                assert(all.take(i + 1).last() == all[i as int]);
                held_within(all, speaker@, i + 1);
            }
            let (key, rel) = self.pairs.entry_at(i);
            if text::same(key.0.as_str(), speaker) {
                proof {
                    let t = before.push(*rel);
                    assert(t.drop_last() =~= before);
                    assert(t == held_by(all.take(i + 1), speaker@));
                    assert(known[count as int] == t[count as int]);
                    assert(t[count as int] == *rel);
                    if rel.rapport < FULL {
                        single::bits_are_in_order(rel.rapport, FULL);
                    }
                    assert(count * one + one == (count + 1) * one) by (nonlinear_arith);
                    assert(count * one <= 0x100_0000nat * one) by (nonlinear_arith)
                        requires
                            count <= 0x100_0000,
                    ;
                    single::counts_are_small(total);
                    single::rounding_keeps_counts(
                        single::value(total) + single::value(rel.rapport),
                        (count + 1) as nat,
                    );
                }
                total = single::plus(total, rel.rapport);
                count += 1;
            }
            i += 1;
        }
        proof {
            assert(all.take(n as int) =~= all);
            assert(count * one <= 0x100_0000nat * one) by (nonlinear_arith)
                requires
                    count <= 0x100_0000,
            ;
            single::counts_are_small(total);
        }
        if count == 0 {
            LEVEL_50
        } else {
            single::over(total, count)
        }
    }

    /// Lowest trust this speaker has toward any group member: the full one
    /// toward nobody.
    pub fn min_trust_toward_others(&self, speaker: &str) -> (r: u32)
        ensures
            self@ == maps::map_of(self.entries()),
            maps::distinct_keys(self.entries()),
            r == lowest_trust(held_by(self.entries(), speaker@)),
    {
        let n: usize = self.pairs.len();
        let mut low: u32 = FULL;
        let mut i: usize = 0;
        let ghost all = self.entries();
        while i < n
            invariant
                n == all.len(),
                all == self.pairs.entries(),
                i <= n,
                low == lowest_trust(held_by(all.take(i as int), speaker@)),
            decreases n - i,
        {
            proof {
                assert(all.take(i + 1).drop_last() =~= all.take(i as int));
                assert(all.take(i + 1).last() == all[i as int]);
            }
            let (key, rel) = self.pairs.entry_at(i);
            if text::same(key.0.as_str(), speaker) {
                proof {
                    let t = held_by(all.take(i as int), speaker@);
                    assert(t.push(*rel).drop_last() =~= t);
                }
                if rel.trust < low {
                    low = rel.trust;
                }
            }
            i += 1;
        }
        proof {
            assert(all.take(n as int) =~= all);
        }
        low
    }
}

/// The relationships among `s` that are `speaker`'s own.
pub open spec fn held_by(
    s: Seq<((String, String), Relationship)>,
    speaker: Seq<char>,
) -> Seq<Relationship>
    decreases s.len(),
{
    if s.len() == 0 {
        Seq::empty()
    } else if s.last().0.0@ == speaker {
        held_by(s.drop_last(), speaker).push(s.last().1)
    } else {
        held_by(s.drop_last(), speaker)
    }
}

/// The rapport of relationships, summed up one after the other, each sum to the
/// nearest number.
pub open spec fn total_rapport(s: Seq<Relationship>) -> nat
    decreases s.len(),
{
    if s.len() == 0 {
        0
    } else {
        single::nearest(total_rapport(s.drop_last()) + single::value(s.last().rapport))
    }
}

/// What a speaker holds among the first relationships, they hold first among all.
proof fn held_within(
    s: Seq<((String, String), Relationship)>,
    speaker: Seq<char>,
    n: int,
)
    requires
        0 <= n <= s.len(),
    ensures
        held_by(s.take(n), speaker).len() <= held_by(s, speaker).len(),
        forall|i: int|
            0 <= i < held_by(s.take(n), speaker).len() ==> held_by(s, speaker)[i]
                == #[trigger] held_by(s.take(n), speaker)[i],
    decreases s.len() - n,
{
    if n == s.len() {
        assert(s.take(n) =~= s);
    } else {
        held_within(s, speaker, n + 1);
        assert(s.take(n + 1).drop_last() =~= s.take(n));
        let a = held_by(s.take(n), speaker);
        let b = held_by(s.take(n + 1), speaker);
        assert forall|i: int| 0 <= i < a.len() implies held_by(s, speaker)[i] == #[trigger] a[i] by {
            assert(b[i] == a[i]);
        }
    }
}

/// The least trust among relationships, and no more than the full one.
pub open spec fn lowest_trust(s: Seq<Relationship>) -> u32
    decreases s.len(),
{
    if s.len() == 0 {
        FULL
    } else if s.last().trust < lowest_trust(s.drop_last()) {
        s.last().trust
    } else {
        lowest_trust(s.drop_last())
    }
}

// ── Laws ────────────────────────────────────────────────────────────────────

/// In an established duo the silence of both is comfortable, teasing is warm
/// and real life may bleed in; between strangers none of this holds.
pub proof fn duos_are_close()
    ensures
        ({
            let duo = Relationship::initial(RelDynamic::EstablishedDuo);
            duo.comfortable() && duo.warm_tease() && duo.rl_bleed() && duo.story_reaction()
        }),
        ({
            let strangers = Relationship::initial(RelDynamic::Strangers);
            !strangers.comfortable() && !strangers.warm_tease() && !strangers.rl_bleed()
                && !strangers.story_reaction()
        }),
{
}

/// Setting one perspective leaves all others as they were, the other direction
/// among them: relationships are directed.
pub proof fn perspectives_are_independent(
    g: Map<Seq<Seq<char>>, Relationship>,
    from: Seq<char>,
    to: Seq<char>,
    rel: Relationship,
    a: Seq<char>,
    b: Seq<char>,
)
    requires
        a != from || b != to,
    ensures
        ({
            let h = g.insert(toward(from, to), rel);
            &&& h.dom().contains(toward(a, b)) == g.dom().contains(toward(a, b))
            &&& g.dom().contains(toward(a, b)) ==> h[toward(a, b)] == g[toward(a, b)]
        }),
{
    assert(toward(a, b)[0] == a && toward(a, b)[1] == b);
    assert(toward(from, to)[0] == from && toward(from, to)[1] == to);
}

/// Whether bits are those of the number nearest to some hundredths.
pub open spec fn is_hundredths(x: Single, n: nat) -> bool {
    single::value(x) == single::nearest_ratio(n * single::power(single::UNIT as nat), 100)
}

/// The levels that are counted with are the numbers nearest to their hundredths.
pub proof fn levels_are_hundredths()
    ensures
        is_hundredths(LEVEL_10, 10),
        is_hundredths(LEVEL_20, 20),
        is_hundredths(LEVEL_30, 30),
        is_hundredths(LEVEL_40, 40),
        is_hundredths(LEVEL_45, 45),
        is_hundredths(LEVEL_50, 50),
        is_hundredths(LEVEL_55, 55),
        is_hundredths(LEVEL_60, 60),
        is_hundredths(LEVEL_65, 65),
        is_hundredths(LEVEL_70, 70),
        is_hundredths(LEVEL_72, 72),
        is_hundredths(LEVEL_90, 90),
        is_hundredths(GAIN, 5),
        is_hundredths(LOSS, 8),
        is_hundredths(single::THREE_TENTHS, 30),
{
    single::mantissa_powers();
    single::nearest_to_hundredths(LEVEL_10, 10, 27);
    single::nearest_to_hundredths(LEVEL_20, 20, 26);
    single::nearest_to_hundredths(LEVEL_30, 30, 25);
    single::nearest_to_hundredths(LEVEL_40, 40, 25);
    single::nearest_to_hundredths(LEVEL_45, 45, 25);
    single::nearest_to_hundredths(LEVEL_50, 50, 24);
    single::nearest_to_hundredths(LEVEL_55, 55, 24);
    single::nearest_to_hundredths(LEVEL_60, 60, 24);
    single::nearest_to_hundredths(LEVEL_65, 65, 24);
    single::nearest_to_hundredths(LEVEL_70, 70, 24);
    single::nearest_to_hundredths(LEVEL_72, 72, 24);
    single::nearest_to_hundredths(LEVEL_90, 90, 24);
    single::nearest_to_hundredths(GAIN, 5, 28);
    single::nearest_to_hundredths(LOSS, 8, 27);
    single::nearest_to_hundredths(single::THREE_TENTHS, 30, 25);
}

/// The lowest trust is a bound of every one, so a group without strangers is
/// one to which real life may be told.
pub proof fn lowest_trust_is_a_bound(s: Seq<Relationship>)
    ensures
        lowest_trust(s) <= FULL,
        forall|i: int| 0 <= i < s.len() ==> lowest_trust(s) <= (#[trigger] s[i]).trust,
        lowest_trust(s) < FULL ==> exists|i: int|
            0 <= i < s.len() && (#[trigger] s[i]).trust == lowest_trust(s),
    decreases s.len(),
{
    if s.len() > 0 {
        let t = s.drop_last();
        lowest_trust_is_a_bound(t);
        assert forall|i: int| 0 <= i < s.len() implies lowest_trust(s) <= (#[trigger] s[i]).trust by {
            if i < t.len() {
                assert(s[i] == t[i]);
            }
        }
        if lowest_trust(s) < FULL {
            if s.last().trust == lowest_trust(s) {
                assert(s[s.len() - 1].trust == lowest_trust(s));
            } else {
                let i = choose|i: int| 0 <= i < t.len() && (#[trigger] t[i]).trust == lowest_trust(t);
                assert(s[i] == t[i]);
            }
        }
    }
}

/// What a speaker holds is their own side of each pair, not that of the other:
/// adding a relationship of theirs adds it, and adding one that somebody else has
/// toward them adds nothing.
pub proof fn speakers_hold_their_own_side(
    s: Seq<((String, String), Relationship)>,
    from: String,
    to: String,
    rel: Relationship,
    speaker: Seq<char>,
)
    ensures
        from@ == speaker ==> held_by(s.push(((from, to), rel)), speaker) == held_by(
            s,
            speaker,
        ).push(rel),
        from@ != speaker ==> held_by(s.push(((from, to), rel)), speaker) == held_by(s, speaker),
{
    assert(s.push(((from, to), rel)).drop_last() =~= s);
}

/// Those who are a duo trust and know each other best and get on best, then come
/// teammates in trust and rapport, and strangers last in everything.
pub proof fn dynamics_are_ordered()
    ensures
        ({
            let duo = Relationship::initial(RelDynamic::EstablishedDuo);
            let team = Relationship::initial(RelDynamic::Teammates);
            let rivals = Relationship::initial(RelDynamic::Rivals);
            let strangers = Relationship::initial(RelDynamic::Strangers);
            &&& duo.trust > team.trust > rivals.trust > strangers.trust
            &&& duo.familiarity > rivals.familiarity > team.familiarity > strangers.familiarity
            &&& duo.rapport > team.rapport > rivals.rapport > strangers.rapport
            &&& duo.dynamic == RelDynamic::EstablishedDuo && team.dynamic == RelDynamic::Teammates
            &&& rivals.dynamic == RelDynamic::Rivals && strangers.dynamic == RelDynamic::Strangers
        }),
{
}

/// More trust never takes a liberty away, nor does more familiarity; who may tease
/// or be silent may also tell of real life and hears of it.
pub proof fn trust_only_permits_more(a: Relationship, b: Relationship)
    requires
        a.trust <= b.trust,
        a.familiarity <= b.familiarity,
        a.dynamic == b.dynamic,
    ensures
        a.rl_bleed() ==> b.rl_bleed(),
        a.comfortable() ==> b.comfortable(),
        a.warm_tease() ==> b.warm_tease(),
        a.story_reaction() ==> b.story_reaction(),
        a.warm_tease() ==> a.rl_bleed() && a.story_reaction(),
        a.comfortable() ==> a.rl_bleed() && a.dynamic == RelDynamic::EstablishedDuo,
        a.rl_bleed() ==> a.story_reaction(),
        !Relationship::initial(RelDynamic::Teammates).rl_bleed(),
        !Relationship::initial(RelDynamic::Rivals).rl_bleed(),
{
}

} // verus!
