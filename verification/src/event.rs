//! Combat events as the client parses them, and the batches in which they
//! travel to the server.
use vstd::prelude::*;

verus! {

/// Critical hit family (Critical / Deadly Strike / Crippling Blow / Finishing Blow).
pub const MODS_CRIT: u16 = 0x0001;

pub const MODS_TWINCAST: u16 = 0x0002;

pub const MODS_LUCKY: u16 = 0x0004;

/// Rampage or Wild Rampage (AoE melee).
pub const MODS_RAMPAGE: u16 = 0x0008;

pub const MODS_STRIKETHROUGH: u16 = 0x0010;

/// Riposte used as a hit modifier (Riposte Strikethrough).
pub const MODS_RIPOSTE_MOD: u16 = 0x0020;

pub const MODS_ASSASSINATE: u16 = 0x0040;

pub const MODS_HEADSHOT: u16 = 0x0080;

pub const MODS_SLAY_UNDEAD: u16 = 0x0100;

pub const MODS_DOUBLEBOW: u16 = 0x0200;

pub const MODS_FLURRY: u16 = 0x0400;

/// A single fully-parsed, attributed combat event emitted by the client.
///
/// `ts`   — unix timestamp in seconds (u32, safe until 2106).
/// `mob`  — per-session sequential mob-instance ID assigned by the client parser.
/// `tank` — on Melee/Spell: `true` = mob attacking player (tanking), `false` = player attacking mob.
/// `mods` — hit modifier bitmask (MODS_* constants); 0 if none or unknown.
#[allow(inconsistent_fields)]
#[derive(Debug, Clone)]
pub enum CombatEvent {
    /// Melee hit.  `tank=false`: player→mob (damage).  `tank=true`: mob→player (tanking).
    Melee {
        ts: u32,
        mob: u32,
        src: String,
        tgt: String,
        dmg: u32,
        typ: String,
        tank: bool,
        mods: u16,
    },
    /// Attributed direct-damage spell.  Same `tank` semantics as Melee.
    Spell {
        ts: u32,
        mob: u32,
        src: String,
        tgt: String,
        dmg: u32,
        sp: String,
        tank: bool,
        mods: u16,
    },
    /// DoT tick — always player (`src`) → mob (`tgt`).
    Dot { ts: u32, mob: u32, src: String, tgt: String, dmg: u32, sp: String, mods: u16 },
    /// Riposte damage — always player (`src`) riposting mob (`tgt`).
    Rip { ts: u32, mob: u32, src: String, tgt: String, dmg: u32, mods: u16 },
    /// Damage shield proc — always player's (`src`) DS hitting mob (`tgt`).
    Ds { ts: u32, mob: u32, src: String, tgt: String, dmg: u32 },
    /// Heal.  `mob` is the active mob-instance ID, or `None` when healing outside combat.
    Heal { ts: u32, mob: Option<u32>, src: String, tgt: String, amt: u32, sp: String, mods: u16 },
    /// Mob (`tgt`) confirmed killed by `killer` (empty string if unknown/self).
    Slay { ts: u32, mob: u32, tgt: String, killer: String },
    /// Spell cast started — drives cast-bar display only, not stored long-term.
    Cast { ts: u32, src: String, sp: String },
    /// Miss/avoidance: `src` attacked `tgt`, `tgt` avoided via `typ`
    /// (dodge / parry / miss / block / riposte / invulnerable / absorb).
    Miss { ts: u32, mob: u32, src: String, tgt: String, typ: String },
    /// Rune/absorb: `tgt`'s mitigation absorbed a hit from `src` (zero damage).
    Absorb { ts: u32, mob: u32, tgt: String, src: String },
    /// Spell resist: NPC `tgt` resisted caster `src`'s spell `sp`.
    Resist { ts: u32, src: String, tgt: String, sp: String },
    /// Player class detected from a /who log line.
    /// `classes` is 1–3 EQ class short-codes in priority order, e.g. ["WAR","MNK","ROG"].
    Who { ts: u32, name: String, classes: Vec<String> },
    /// The player entered the world: the log's welcome line.
    Login { ts: u32 },
}

impl CombatEvent {
    /// The log timestamp of the event.
    pub open spec fn spec_ts(&self) -> u32 {
        match *self {
            CombatEvent::Melee { ts, .. } => ts,
            CombatEvent::Spell { ts, .. } => ts,
            CombatEvent::Dot { ts, .. } => ts,
            CombatEvent::Rip { ts, .. } => ts,
            CombatEvent::Ds { ts, .. } => ts,
            CombatEvent::Heal { ts, .. } => ts,
            CombatEvent::Slay { ts, .. } => ts,
            CombatEvent::Cast { ts, .. } => ts,
            CombatEvent::Miss { ts, .. } => ts,
            CombatEvent::Absorb { ts, .. } => ts,
            CombatEvent::Resist { ts, .. } => ts,
            CombatEvent::Who { ts, .. } => ts,
            CombatEvent::Login { ts } => ts,
        }
    }

    /// The EQ log timestamp (unix seconds) for this event.
    pub fn ts(&self) -> (r: u32)
        ensures
            r == self.spec_ts(),
    {
        match self {
            CombatEvent::Melee { ts, .. } => *ts,
            CombatEvent::Spell { ts, .. } => *ts,
            CombatEvent::Dot { ts, .. } => *ts,
            CombatEvent::Rip { ts, .. } => *ts,
            CombatEvent::Ds { ts, .. } => *ts,
            CombatEvent::Heal { ts, .. } => *ts,
            CombatEvent::Slay { ts, .. } => *ts,
            CombatEvent::Cast { ts, .. } => *ts,
            CombatEvent::Miss { ts, .. } => *ts,
            CombatEvent::Absorb { ts, .. } => *ts,
            CombatEvent::Resist { ts, .. } => *ts,
            CombatEvent::Who { ts, .. } => *ts,
            CombatEvent::Login { ts } => *ts,
        }
    }
}

/// Whether `m` is the greatest log timestamp of `events`.
pub open spec fn is_max_ts(events: Seq<CombatEvent>, m: int) -> bool {
    &&& forall|i: int| 0 <= i < events.len() ==> (#[trigger] events[i]).spec_ts() <= m
    &&& exists|i: int| 0 <= i < events.len() && (#[trigger] events[i]).spec_ts() == m
}

/// Whether `m` is the least log timestamp of `events`.
pub open spec fn is_min_ts(events: Seq<CombatEvent>, m: int) -> bool {
    &&& forall|i: int| 0 <= i < events.len() ==> m <= (#[trigger] events[i]).spec_ts()
    &&& exists|i: int| 0 <= i < events.len() && (#[trigger] events[i]).spec_ts() == m
}

/// The least and the greatest log timestamp of `events`.
pub fn ts_bounds(events: &Vec<CombatEvent>) -> (r: (u64, u64))
    requires
        events@.len() > 0,
    ensures
        is_min_ts(events@, r.0 as int),
        is_max_ts(events@, r.1 as int),
        r.0 <= r.1 <= u32::MAX,
{
    let mut lo: u64 = events[0].ts() as u64;
    let mut hi: u64 = lo;
    let mut i: usize = 1;
    proof {
        assert(events@.take(1)[0] == events@[0]);
    }
    while i < events.len()
        invariant
            1 <= i <= events@.len(),
            lo <= hi <= u32::MAX,
            is_min_ts(events@.take(i as int), lo as int),
            is_max_ts(events@.take(i as int), hi as int),
        decreases events@.len() - i,
    {
        let t: u64 = events[i].ts() as u64;
        let ghost before = events@.take(i as int);
        let ghost after = events@.take(i + 1);
        proof {
            assert(after[i as int] == events@[i as int]);
            assert forall|k: int| 0 <= k < i implies after[k] == before[k] by {}
            let a = choose|k: int| 0 <= k < before.len() && before[k].spec_ts() == lo;
            let b = choose|k: int| 0 <= k < before.len() && before[k].spec_ts() == hi;
            assert(after[a].spec_ts() == lo);
            assert(after[b].spec_ts() == hi);
        }
        if t < lo {
            lo = t;
        }
        if t > hi {
            hi = t;
        }
        i += 1;
    }
    proof {
        assert(events@.take(i as int) =~= events@);
    }
    (lo, hi)
}

/// One second's worth of events batched by the client and sent to the server.
#[derive(Debug, Clone)]
pub struct EventBatch {
    /// Monotonically increasing sequence number (wraps at u32::MAX).
    pub seq: u32,
    pub events: Vec<CombatEvent>,
}

impl EventBatch {
    /// Maximum EQ log timestamp across all events in this batch, or `None` if empty.
    pub fn max_log_ts(&self) -> (r: Option<u64>)
        ensures
            r is None <==> self.events@.len() == 0,
            r is Some ==> is_max_ts(self.events@, r->0 as int),
    {
        if self.events.len() == 0 {
            None
        } else {
            let (_, hi) = ts_bounds(&self.events);
            Some(hi)
        }
    }
}

/// Whatever happened, an event has the time that its line was logged at.
pub proof fn events_have_their_own_time(e: CombatEvent)
    ensures
        e is Melee ==> e.spec_ts() == e->Melee_ts,
        e is Spell ==> e.spec_ts() == e->Spell_ts,
        e is Dot ==> e.spec_ts() == e->Dot_ts,
        e is Rip ==> e.spec_ts() == e->Rip_ts,
        e is Ds ==> e.spec_ts() == e->Ds_ts,
        e is Heal ==> e.spec_ts() == e->Heal_ts,
        e is Slay ==> e.spec_ts() == e->Slay_ts,
        e is Cast ==> e.spec_ts() == e->Cast_ts,
        e is Miss ==> e.spec_ts() == e->Miss_ts,
        e is Absorb ==> e.spec_ts() == e->Absorb_ts,
        e is Resist ==> e.spec_ts() == e->Resist_ts,
        e is Who ==> e.spec_ts() == e->Who_ts,
        e is Login ==> e.spec_ts() == e->Login_ts,
{
}

/// The span of some events does not depend on their order: it is that between the
/// earliest and the latest, of which there is one each.
pub proof fn earliest_and_latest_are_unique(
    events: Seq<CombatEvent>,
    a: int,
    b: int,
    lo: int,
    hi: int,
)
    requires
        is_max_ts(events, a),
        is_max_ts(events, b),
        is_min_ts(events, lo),
        is_min_ts(events, hi),
    ensures
        a == b,
        lo == hi,
        lo <= a,
{
}

} // verus!
