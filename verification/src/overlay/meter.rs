//! The meter overlay: which fight it shows, how its rows are ranked, and when
//! its window shows.
use vstd::prelude::*;

use crate::config::Config;
use crate::maps;
use crate::maps::Ranked;
use crate::number;
use crate::overlay::alert;
use crate::overlay::alert::WindowChange;
use crate::text;

verus! {

/// Milliseconds between two ticks.
pub const TIMER_INTERVAL_MS: u64 = 200;

/// The most fights that the picker lists.
pub const MAX_PICKER_ENTRIES: usize = 6;

/// A fight that is silent for this long is idle.
pub const ACTIVE_NANOS: u64 = 5_000_000_000;

/// A fight that is silent for this long is over.
pub const TIMED_OUT_NANOS: u64 = 15_000_000_000;

/// No fight counts as shorter than this.
pub const MIN_ELAPSED_NANOS: u64 = 1_000_000;

/// Ticks between two times that the window is put on top again.
pub const TOPMOST_TICKS: u64 = 25;

// ── The state of the fights ─────────────────────────────────────────────────

/// What one entity did or received in a fight.
#[derive(Clone, Copy, PartialEq, Eq, Structural)]
pub struct EntityCombatStats {
    pub total_damage: u64,
    pub total_heals: u64,
    pub total_healed_received: u64,
}

/// One entity in a fight.
pub struct EntityEntry {
    pub name: String,
    pub stats: EntityCombatStats,
}

/// The entities of the fight with one mob.
pub struct Bucket {
    pub mob_id: u64,
    pub entries: Vec<EntityEntry>,
}

/// Whether no name occurs twice.
pub open spec fn names_once(entries: Seq<EntityEntry>) -> bool {
    forall|i: int, j: int|
        0 <= i < j < entries.len() ==> (#[trigger] entries[i]).name@ != (#[trigger] entries[j]).name@
}

impl Bucket {
    /// Whether each entity has one entry.
    pub open spec fn is_map(&self) -> bool {
        names_once(self.entries@)
    }
}

/// One mob, with the times that it was first and last seen in nanoseconds.
pub struct MobInstance {
    pub id: u64,
    pub name: String,
    pub first_seen: u64,
    pub last_seen: u64,
}

/// A pet and who owns it.
pub struct Pet {
    pub name: String,
    pub owner: String,
}

/// A player and the codes of the classes that they were seen with.
pub struct PlayerClass {
    pub name: String,
    pub codes: Vec<String>,
}

/// What is known of the fights so far.
pub struct CombatState {
    pub player_name: String,
    /// Name of the mob that was fought last.
    pub mob_name: String,
    pub mob_list: Vec<MobInstance>,
    pub mob_damage: Vec<Bucket>,
    pub mob_tanking: Vec<Bucket>,
    pub mob_healing: Vec<Bucket>,
    pub mob_healed: Vec<Bucket>,
    pub confirmed_mobs: Vec<String>,
    pub dead_mobs: Vec<String>,
    pub known_pets: Vec<Pet>,
    pub player_classes: Vec<PlayerClass>,
    /// Length of the fight as a whole, in nanoseconds.
    pub elapsed_nanos: u64,
}

/// Whether a list of names holds a name.
pub open spec fn names(v: Seq<String>, name: Seq<char>) -> bool {
    exists|i: int| 0 <= i < v.len() && (#[trigger] v[i])@ == name
}

fn holds(v: &Vec<String>, name: &str) -> (r: bool)
    ensures
        r == names(v@, name@),
{
    let mut i: usize = 0;
    while i < v.len()
        invariant
            i <= v@.len(),
            forall|j: int| 0 <= j < i ==> (#[trigger] v@[j])@ != name@,
        decreases v@.len() - i,
    {
        if text::same(v[i].as_str(), name) {
            return true;
        }
        i += 1;
    }
    false
}

/// Where the fight with `id` stands in a list of buckets.
pub open spec fn bucket_index(v: Seq<Bucket>, id: u64) -> Option<int>
    decreases v.len(),
{
    if v.len() == 0 {
        None
    } else if bucket_index(v.drop_last(), id) is Some {
        bucket_index(v.drop_last(), id)
    } else if v.last().mob_id == id {
        Some(v.len() - 1)
    } else {
        None
    }
}

/// The entities of the fight with `id`; none where there is no such fight.
pub open spec fn bucket_entries(v: Seq<Bucket>, id: u64) -> Seq<EntityEntry> {
    match bucket_index(v, id) {
        Some(i) => v[i].entries@,
        None => Seq::empty(),
    }
}

fn find_bucket(v: &Vec<Bucket>, id: u64) -> (r: Option<usize>)
    ensures
        bucket_index(v@, id) == match r {
            Some(i) => Some(i as int),
            None => None,
        },
        r matches Some(i) ==> i < v@.len(),
{
    let mut i: usize = 0;
    while i < v.len()
        invariant
            i <= v@.len(),
            bucket_index(v@.take(i as int), id) is None,
        decreases v@.len() - i,
    {
        proof {
            assert(v@.take(i + 1).drop_last() =~= v@.take(i as int));
            assert(v@.take(i + 1).last() == v@[i as int]);
        }
        if v[i].mob_id == id {
            proof {
                bucket_index_prefix(v@, i + 1, id);
            }
            return Some(i);
        }
        i += 1;
    }
    proof {
        assert(v@.take(i as int) =~= v@);
    }
    None
}

proof fn bucket_index_prefix(v: Seq<Bucket>, n: int, id: u64)
    requires
        0 <= n <= v.len(),
        bucket_index(v.take(n), id) is Some,
    ensures
        bucket_index(v, id) == bucket_index(v.take(n), id),
    decreases v.len(),
{
    if n == v.len() {
        assert(v.take(n) =~= v);
    } else {
        assert(v.drop_last().take(n) =~= v.take(n));
        bucket_index_prefix(v.drop_last(), n, id);
    }
}

impl CombatState {
    /// Whether `name` is the player or a pet of the player's.
    pub open spec fn is_own(&self, name: Seq<char>) -> bool {
        ||| name == self.player_name@
        ||| exists|i: int|
            0 <= i < self.known_pets@.len() && (#[trigger] self.known_pets@[i]).name@ == name
                && self.known_pets@[i].owner@ == self.player_name@
    }

    fn own(&self, name: &str) -> (r: bool)
        ensures
            r == self.is_own(name@),
    {
        if text::same(name, self.player_name.as_str()) {
            return true;
        }
        let mut i: usize = 0;
        while i < self.known_pets.len()
            invariant
                i <= self.known_pets@.len(),
                forall|j: int|
                    0 <= j < i ==> !((#[trigger] self.known_pets@[j]).name@ == name@
                        && self.known_pets@[j].owner@ == self.player_name@),
            decreases self.known_pets@.len() - i,
        {
            let p = &self.known_pets[i];
            if text::same(p.name.as_str(), name) && text::same(
                p.owner.as_str(),
                self.player_name.as_str(),
            ) {
                return true;
            }
            i += 1;
        }
        false
    }

    /// Whether the player or a pet of theirs is among some entities.
    pub open spec fn takes_part(&self, entries: Seq<EntityEntry>) -> bool {
        exists|i: int| 0 <= i < entries.len() && self.is_own(#[trigger] entries[i].name@)
    }

    fn part_taken(&self, buckets: &Vec<Bucket>, id: u64) -> (r: bool)
        ensures
            r == self.takes_part(bucket_entries(buckets@, id)),
    {
        match find_bucket(buckets, id) {
            None => false,
            Some(b) => {
                let entries = &buckets[b].entries;
                let mut i: usize = 0;
                while i < entries.len()
                    invariant
                        entries@ == bucket_entries(buckets@, id),
                        i <= entries@.len(),
                        forall|j: int| 0 <= j < i ==> !self.is_own(#[trigger] entries@[j].name@),
                    decreases entries@.len() - i,
                {
                    if self.own(entries[i].name.as_str()) {
                        return true;
                    }
                    i += 1;
                }
                false
            },
        }
    }

    /// Whether the player or a pet of theirs hits the mob or is hit by it.
    pub open spec fn engaged(&self, mob_id: u64) -> bool {
        self.takes_part(bucket_entries(self.mob_damage@, mob_id)) || self.takes_part(
            bucket_entries(self.mob_tanking@, mob_id),
        )
    }

    /// Whether the player or a pet of theirs hits the mob or is hit by it.
    pub fn player_engaged(&self, mob_id: u64) -> (r: bool)
        ensures
            r == self.engaged(mob_id),
    {
        self.part_taken(&self.mob_damage, mob_id) || self.part_taken(&self.mob_tanking, mob_id)
    }

    /// Where the mob `id` first stands among the first `n` of the list.
    pub open spec fn first_listed(&self, id: u64, n: nat) -> Option<int>
        decreases n,
    {
        if n == 0 {
            None
        } else if self.first_listed(id, (n - 1) as nat) is Some {
            self.first_listed(id, (n - 1) as nat)
        } else if self.mob_list@[n - 1].id == id {
            Some(n - 1)
        } else {
            None
        }
    }

    /// Where the mob `id` stands in the list.
    pub open spec fn listed(&self, id: u64) -> Option<int> {
        self.first_listed(id, self.mob_list@.len())
    }

    proof fn first_listed_stays(&self, id: u64, n: nat, m: nat)
        requires
            n <= m,
            self.first_listed(id, n) is Some,
        ensures
            self.first_listed(id, m) == self.first_listed(id, n),
        decreases m,
    {
        if n < m {
            self.first_listed_stays(id, n, (m - 1) as nat);
        }
    }

    fn find_mob(&self, id: u64) -> (r: Option<usize>)
        ensures
            self.listed(id) == match r {
                Some(i) => Some(i as int),
                None => None,
            },
            r matches Some(i) ==> i < self.mob_list@.len() && self.mob_list@[i as int].id == id,
    {
        let mut i: usize = 0;
        while i < self.mob_list.len()
            invariant
                i <= self.mob_list@.len(),
                self.first_listed(id, i as nat) is None,
            decreases self.mob_list@.len() - i,
        {
            if self.mob_list[i].id == id {
                proof {
                    self.first_listed_stays(id, (i + 1) as nat, self.mob_list@.len());
                }
                return Some(i);
            }
            i += 1;
        }
        None
    }

    /// Among the first `n` mobs of the list, the one that the player is engaged
    /// with and that was seen last; of several, the last in the list.
    pub open spec fn freshest(&self, n: nat) -> Option<int>
        decreases n,
    {
        if n == 0 {
            None
        } else {
            let before = self.freshest((n - 1) as nat);
            if !self.engaged(self.mob_list@[n - 1].id) {
                before
            } else if before matches Some(j) && self.mob_list@[j].last_seen > self.mob_list@[n
                - 1].last_seen {
                before
            } else {
                Some(n - 1)
            }
        }
    }

    /// The mob to follow where none is pinned.
    pub open spec fn followed(&self) -> Option<u64> {
        match self.freshest(self.mob_list@.len()) {
            Some(j) => Some(self.mob_list@[j].id),
            None => None,
        }
    }

    /// A pin as long as its mob is listed.
    pub open spec fn live_pin(&self, pinned: Option<u64>) -> Option<u64> {
        match pinned {
            Some(p) => if self.listed(p) is Some {
                Some(p)
            } else {
                None
            },
            None => None,
        }
    }

    /// The mob that the meter shows: the pinned one where it is listed, else the
    /// one to follow.
    pub open spec fn view_mob(&self, pinned: Option<u64>) -> Option<u64> {
        match self.live_pin(pinned) {
            Some(p) => Some(p),
            None => self.followed(),
        }
    }

    /// Which mob the meter should currently display: the manually pinned
    /// mob if one is set and still present on the mob list, otherwise the
    /// most recently active mob the player is actually engaged with. What
    /// others fight nearby does not count.
    pub fn resolve_view_mob_id(&self, pinned: Option<u64>) -> (r: Option<u64>)
        ensures
            r == self.view_mob(pinned),
    {
        if let Some(p) = pinned {
            if self.find_mob(p).is_some() {
                return Some(p);
            }
        }
        let mut best: Option<usize> = None;
        let mut i: usize = 0;
        while i < self.mob_list.len()
            invariant
                i <= self.mob_list@.len(),
                best matches Some(j) ==> j < i,
                self.freshest(i as nat) == match best {
                    Some(j) => Some(j as int),
                    None => None,
                },
            decreases self.mob_list@.len() - i,
        {
            if self.player_engaged(self.mob_list[i].id) {
                let keep: bool = match best {
                    Some(j) => self.mob_list[j].last_seen > self.mob_list[i].last_seen,
                    None => false,
                };
                if !keep {
                    best = Some(i);
                }
            }
            i += 1;
        }
        match best {
            Some(j) => Some(self.mob_list[j].id),
            None => None,
        }
    }

    /// The length of the fight with a mob, in nanoseconds: from the first to
    /// the last sight of it, or, where it is not listed, that of the fight as a
    /// whole.
    pub open spec fn fight_nanos(&self, mob_id: u64) -> nat {
        let n: int = match self.listed(mob_id) {
            Some(i) => self.mob_list@[i].last_seen - self.mob_list@[i].first_seen,
            None => self.elapsed_nanos as int,
        };
        if n < MIN_ELAPSED_NANOS {
            MIN_ELAPSED_NANOS as nat
        } else {
            n as nat
        }
    }

    /// The length of the fight with a mob, in nanoseconds, at least a
    /// millisecond.
    pub fn mob_elapsed_nanos(&self, mob_id: u64) -> (r: u64)
        ensures
            r == self.fight_nanos(mob_id),
    {
        let n: u64 = match self.find_mob(mob_id) {
            Some(i) => {
                let m = &self.mob_list[i];
                if m.last_seen < m.first_seen {
                    0
                } else {
                    m.last_seen - m.first_seen
                }
            },
            None => self.elapsed_nanos,
        };
        if n < MIN_ELAPSED_NANOS {
            MIN_ELAPSED_NANOS
        } else {
            n
        }
    }

    /// The code of the class that a player was first seen with; empty where
    /// none is known.
    pub open spec fn class_code(&self, name: Seq<char>, n: nat) -> Seq<char>
        decreases n,
    {
        if n == 0 {
            Seq::empty()
        } else {
            let p = self.player_classes@[self.player_classes@.len() - n];
            if p.name@ == name {
                if p.codes@.len() == 0 {
                    Seq::empty()
                } else {
                    p.codes@[0]@
                }
            } else {
                self.class_code(name, (n - 1) as nat)
            }
        }
    }

    /// The colour of an entity's class.
    pub open spec fn entity_color(&self, name: Seq<char>) -> (u8, u8, u8) {
        class_rgb(self.class_code(name, self.player_classes@.len()))
    }

    fn color_of(&self, name: &str) -> (r: (u8, u8, u8))
        ensures
            r == self.entity_color(name@),
    {
        let n: usize = self.player_classes.len();
        let mut i: usize = 0;
        while i < n
            invariant
                n == self.player_classes@.len(),
                i <= n,
                self.class_code(name@, (n - i) as nat) == self.class_code(name@, n as nat),
            decreases n - i,
        {
            let p = &self.player_classes[i];
            if text::same(p.name.as_str(), name) {
                if p.codes.len() == 0 {
                    let none: String = String::new();
                    proof {
                        assert(none@ =~= Seq::<char>::empty());
                    }
                    return class_color(none.as_str());
                }
                return class_color(p.codes[0].as_str());
            }
            i += 1;
        }
        let none: String = String::new();
        proof {
            assert(none@ =~= Seq::<char>::empty());
        }
        class_color(none.as_str())
    }
}

/// Class code -> accent colour, `0xRRGGBB`.
pub open spec fn class_hex(code: Seq<char>) -> u32 {
    if code == "WAR"@ {
        0xaf803c
    } else if code == "CLR"@ {
        0x733273
    } else if code == "PAL"@ {
        0x7387fa
    } else if code == "RNG"@ {
        0x507334
    } else if code == "SHD"@ {
        0x4b4b41
    } else if code == "DRU"@ {
        0x649150
    } else if code == "MNK"@ {
        0xd2b48c
    } else if code == "BRD"@ {
        0xb4a032
    } else if code == "ROG"@ {
        0x505c55
    } else if code == "SHM"@ {
        0xa2a2b0
    } else if code == "NEC"@ {
        0x0164fa
    } else if code == "WIZ"@ {
        0xaf0a32
    } else if code == "MAG"@ {
        0x960a0a
    } else if code == "ENC"@ {
        0x0a32c8
    } else if code == "BST"@ {
        0x826432
    } else if code == "BER"@ {
        0xbe6414
    } else {
        0x464650
    }
}

/// Class code -> accent colour.
pub open spec fn class_rgb(code: Seq<char>) -> (u8, u8, u8) {
    alert::rgb_of(class_hex(code))
}

/// Class code -> accent colour.
pub fn class_color(code: &str) -> (r: (u8, u8, u8))
    ensures
        r == class_rgb(code@),
{
    let hex: u32 = if text::same(code, "WAR") {
        0xaf803c
    } else if text::same(code, "CLR") {
        0x733273
    } else if text::same(code, "PAL") {
        0x7387fa
    } else if text::same(code, "RNG") {
        0x507334
    } else if text::same(code, "SHD") {
        0x4b4b41
    } else if text::same(code, "DRU") {
        0x649150
    } else if text::same(code, "MNK") {
        0xd2b48c
    } else if text::same(code, "BRD") {
        0xb4a032
    } else if text::same(code, "ROG") {
        0x505c55
    } else if text::same(code, "SHM") {
        0xa2a2b0
    } else if text::same(code, "NEC") {
        0x0164fa
    } else if text::same(code, "WIZ") {
        0xaf0a32
    } else if text::same(code, "MAG") {
        0x960a0a
    } else if text::same(code, "ENC") {
        0x0a32c8
    } else if text::same(code, "BST") {
        0x826432
    } else if text::same(code, "BER") {
        0xbe6414
    } else {
        0x464650
    };
    alert::color_or(Some(hex), (0, 0, 0))
}

// ── Tabs ────────────────────────────────────────────────────────────────────

/// What the meter ranks by.
#[derive(Clone, Copy, PartialEq, Eq, Structural)]
pub enum MeterTab {
    Dps,
    Tank,
    Heal,
    HealReceived,
}

impl MeterTab {
    pub open spec fn at(i: int) -> MeterTab {
        if i == 1 {
            MeterTab::Tank
        } else if i == 2 {
            MeterTab::Heal
        } else if i == 3 {
            MeterTab::HealReceived
        } else {
            MeterTab::Dps
        }
    }

    /// The tab at a position; the first where there is none.
    pub fn from_index(i: usize) -> (r: MeterTab)
        ensures
            r == MeterTab::at(i as int),
    {
        if i == 1 {
            MeterTab::Tank
        } else if i == 2 {
            MeterTab::Heal
        } else if i == 3 {
            MeterTab::HealReceived
        } else {
            MeterTab::Dps
        }
    }

    pub open spec fn counts_damage(self) -> bool {
        self == MeterTab::Dps || self == MeterTab::Tank
    }

    pub fn amount_col_label(&self) -> (r: &'static str)
        ensures
            r@ == (if self.counts_damage() {
                "Dmg"@
            } else {
                "Heal"@
            }),
    {
        match self {
            MeterTab::Dps => "Dmg",
            MeterTab::Tank => "Dmg",
            MeterTab::Heal => "Heal",
            MeterTab::HealReceived => "Heal",
        }
    }

    pub fn rate_col_label(&self) -> (r: &'static str)
        ensures
            r@ == (if self.counts_damage() {
                "DPS"@
            } else {
                "HPS"@
            }),
    {
        match self {
            MeterTab::Dps => "DPS",
            MeterTab::Tank => "DPS",
            MeterTab::Heal => "HPS",
            MeterTab::HealReceived => "HPS",
        }
    }

    /// What the tab counts of an entity.
    pub open spec fn total(self, stats: EntityCombatStats) -> u64 {
        match self {
            MeterTab::Dps => stats.total_damage,
            MeterTab::Tank => stats.total_damage,
            MeterTab::Heal => stats.total_heals,
            MeterTab::HealReceived => stats.total_healed_received,
        }
    }

    pub fn total_of(&self, stats: &EntityCombatStats) -> (r: u64)
        ensures
            r == self.total(*stats),
    {
        match self {
            MeterTab::Dps => stats.total_damage,
            MeterTab::Tank => stats.total_damage,
            MeterTab::Heal => stats.total_heals,
            MeterTab::HealReceived => stats.total_healed_received,
        }
    }

    /// The fights that the tab reads.
    pub open spec fn buckets(self, cs: CombatState) -> Seq<Bucket> {
        match self {
            MeterTab::Dps => cs.mob_damage@,
            MeterTab::Tank => cs.mob_tanking@,
            MeterTab::Heal => cs.mob_healing@,
            MeterTab::HealReceived => cs.mob_healed@,
        }
    }
}

// ── Rows ────────────────────────────────────────────────────────────────────

/// One row of the meter.
pub struct RowData {
    pub name: String,
    pub color: (u8, u8, u8),
    pub total: u64,
}

impl Ranked for RowData {
    open spec fn rank(&self) -> nat {
        self.total as nat
    }

    fn rank_of(&self) -> (r: u128) {
        self.total as u128
    }
}

/// Whether a tab lists an entity: mobs are no tanks.
pub open spec fn lists(cs: CombatState, tab: MeterTab, name: Seq<char>) -> bool {
    tab != MeterTab::Tank || !names(cs.confirmed_mobs@, name)
}

/// The entities that a tab lists, in the order of the fight's list.
pub open spec fn tab_entries(cs: CombatState, mob_id: u64, tab: MeterTab) -> Seq<EntityEntry> {
    bucket_entries(tab.buckets(cs), mob_id).filter(|e: EntityEntry| lists(cs, tab, e.name@))
}

/// Whether a row shows an entity.
pub open spec fn is_row(cs: CombatState, tab: MeterTab, e: EntityEntry, row: RowData) -> bool {
    &&& row.name@ == e.name@
    &&& row.color == cs.entity_color(e.name@)
    &&& row.total == tab.total(e.stats)
}

/// Whether rows show some entities, one each, in order.
pub open spec fn are_rows(
    cs: CombatState,
    tab: MeterTab,
    entries: Seq<EntityEntry>,
    rows: Seq<RowData>,
) -> bool {
    &&& rows.len() == entries.len()
    &&& forall|i: int| 0 <= i < rows.len() ==> is_row(cs, tab, entries[i], #[trigger] rows[i])
}

/// The sum of what a tab counts.
pub open spec fn grand_total(tab: MeterTab, entries: Seq<EntityEntry>) -> nat
    decreases entries.len(),
{
    if entries.len() == 0 {
        0
    } else {
        grand_total(tab, entries.drop_last()) + tab.total(entries.last().stats) as nat
    }
}

/// The first `max` of a list.
pub open spec fn at_most<T>(s: Seq<T>, max: nat) -> Seq<T> {
    if s.len() <= max {
        s
    } else {
        s.take(max as int)
    }
}

/// What the meter counts of one fight.
pub struct MeterTotals {
    pub mob_name: String,
    pub rows: Vec<RowData>,
    pub footer_total: u64,
    pub elapsed_nanos: u64,
}

/// The name that the meter shows for a mob.
pub open spec fn shown_name(cs: CombatState, mob_id: u64) -> Seq<char> {
    match cs.listed(mob_id) {
        Some(i) => cs.mob_list@[i].name@,
        None => cs.mob_name@,
    }
}

/// Whether `t` is what the meter counts of a fight: the entities that the tab
/// lists, those who did most first, no more than `max_rows` of them; under them
/// the sum of all.
pub open spec fn is_snapshot(
    cs: CombatState,
    mob_id: u64,
    tab: MeterTab,
    max_rows: nat,
    t: MeterTotals,
) -> bool {
    &&& t.mob_name@ == shown_name(cs, mob_id)
    &&& t.elapsed_nanos == cs.fight_nanos(mob_id)
    &&& t.footer_total == grand_total(tab, tab_entries(cs, mob_id, tab))
    &&& exists|all: Seq<RowData>|
        are_rows(cs, tab, tab_entries(cs, mob_id, tab), all) && t.rows@ == #[trigger] at_most(
            maps::ranked_down(all),
            max_rows,
        )
}

proof fn grand_total_grows(tab: MeterTab, entries: Seq<EntityEntry>, n: int)
    requires
        0 <= n <= entries.len(),
    ensures
        grand_total(tab, entries.take(n)) <= grand_total(tab, entries),
    decreases entries.len(),
{
    if n == entries.len() {
        assert(entries.take(n) =~= entries);
    } else {
        assert(entries.drop_last().take(n) =~= entries.take(n));
        grand_total_grows(tab, entries.drop_last(), n);
    }
}

/// What the meter counts of the fight with a mob.
pub fn compute_snapshot(cs: &CombatState, mob_id: u64, tab: MeterTab, max_rows: usize) -> (r:
    MeterTotals)
    requires
        grand_total(tab, tab_entries(*cs, mob_id, tab)) <= u64::MAX,
    ensures
        is_snapshot(*cs, mob_id, tab, max_rows as nat, r),
{
    let ghost want = tab_entries(*cs, mob_id, tab);
    let ghost keeps = |e: EntityEntry| lists(*cs, tab, e.name@);
    let mut rows: Vec<RowData> = Vec::new();
    let mut sum: u64 = 0;
    let buckets = match tab {
        MeterTab::Dps => &cs.mob_damage,
        MeterTab::Tank => &cs.mob_tanking,
        MeterTab::Heal => &cs.mob_healing,
        MeterTab::HealReceived => &cs.mob_healed,
    };
    let at: Option<usize> = find_bucket(buckets, mob_id);
    match at {
        Some(b) => {
            let entries = &buckets[b].entries;
            let mut i: usize = 0;
            proof {
                assert(entries@ == bucket_entries(tab.buckets(*cs), mob_id));
                assert(entries@.take(0) =~= Seq::<EntityEntry>::empty());
                reveal(Seq::filter);
            }
            while i < entries.len()
                invariant
                    keeps == (|e: EntityEntry| lists(*cs, tab, e.name@)),
                    want == entries@.filter(keeps),
                    i <= entries@.len(),
                    are_rows(*cs, tab, entries@.take(i as int).filter(keeps), rows@),
                    sum == grand_total(tab, entries@.take(i as int).filter(keeps)),
                    grand_total(tab, want) <= u64::MAX,
                decreases entries@.len() - i,
            {
                let e = &entries[i];
                let ghost before = entries@.take(i as int).filter(keeps);
                let ghost rows_before = rows@;
                proof {
                    assert(entries@.take(i + 1).drop_last() =~= entries@.take(i as int));
                    assert(entries@.take(i + 1).last() == *e);
                    reveal(Seq::filter);
                }
                if tab != MeterTab::Tank || !holds(&cs.confirmed_mobs, e.name.as_str()) {
                    let total: u64 = tab.total_of(&e.stats);
                    proof {
                        let after = entries@.take(i + 1).filter(keeps);
                        assert(keeps(*e));
                        assert(after == before.push(*e));
                        assert(after.drop_last() =~= before);
                        filter_prefix(entries@, i + 1, keeps);
                        let n = after.len() as int;
                        assert(want.take(n) == after);
                        grand_total_grows(tab, want, n);
                    }
                    sum = sum + total;
                    rows.push(
                        RowData {
                            name: e.name.clone(),
                            color: cs.color_of(e.name.as_str()),
                            total,
                        },
                    );
                    proof {
                        let after = entries@.take(i + 1).filter(keeps);
                        assert forall|j: int| 0 <= j < rows@.len() implies is_row(
                            *cs,
                            tab,
                            after[j],
                            #[trigger] rows@[j],
                        ) by {
                            if j < rows_before.len() {
                                assert(rows@[j] == rows_before[j]);
                            }
                        }
                    }
                } else {
                    proof {
                        assert(!keeps(*e));
                    }
                }
                i += 1;
            }
            proof {
                assert(entries@.take(i as int) =~= entries@);
            }
        },
        None => {
            proof {
                reveal(Seq::filter);
                assert(want =~= Seq::<EntityEntry>::empty());
            }
        },
    }
    let ghost all = rows@;
    proof {
        assert(are_rows(*cs, tab, want, all));
    }
    let mut sorted = maps::sort_down(rows);
    let n: usize = sorted.len();
    if n > max_rows {
        sorted.truncate(max_rows);
    }
    proof {
        assert(sorted@ == at_most(maps::ranked_down(all), max_rows as nat));
    }
    let mob_name: String = match cs.find_mob(mob_id) {
        Some(i) => cs.mob_list[i].name.clone(),
        None => cs.mob_name.clone(),
    };
    MeterTotals {
        mob_name,
        rows: sorted,
        footer_total: sum,
        elapsed_nanos: cs.mob_elapsed_nanos(mob_id),
    }
}

/// What a filter keeps of a prefix is a prefix of what it keeps of the whole.
proof fn filter_prefix(s: Seq<EntityEntry>, n: int, keeps: spec_fn(EntityEntry) -> bool)
    requires
        0 <= n <= s.len(),
    ensures
        s.take(n).filter(keeps).len() <= s.filter(keeps).len(),
        s.filter(keeps).take(s.take(n).filter(keeps).len() as int) == s.take(n).filter(keeps),
    decreases s.len(),
{
    reveal(Seq::filter);
    if n == s.len() {
        assert(s.take(n) =~= s);
        assert(s.filter(keeps).take(s.filter(keeps).len() as int) =~= s.filter(keeps));
    } else {
        assert(s.drop_last().take(n) =~= s.take(n));
        filter_prefix(s.drop_last(), n, keeps);
        let a = s.take(n).filter(keeps);
        let b = s.drop_last().filter(keeps);
        assert(s.filter(keeps).take(a.len() as int) =~= b.take(a.len() as int));
    }
}

// ── The picker ──────────────────────────────────────────────────────────────

/// An entry of the mob picker.
pub struct MobPickerCandidate {
    /// `None` = the "Auto (most recent)" entry, clearing any pin.
    pub id: Option<u64>,
    pub label: String,
    pub dot: (u8, u8, u8),
}

pub const AUTO_LABEL: &'static str = "Auto (most recent)";

pub const AUTO_DOT: (u8, u8, u8) = (120, 120, 130);

pub const ACTIVE_DOT: (u8, u8, u8) = (80, 200, 100);

pub const IDLE_DOT: (u8, u8, u8) = (220, 180, 60);

pub const DEAD_DOT: (u8, u8, u8) = (110, 110, 118);

/// A place in the mob list, ranked by when the mob there was last seen.
pub struct Seen {
    pub at: usize,
    pub last_seen: u64,
}

impl Ranked for Seen {
    open spec fn rank(&self) -> nat {
        self.last_seen as nat
    }

    fn rank_of(&self) -> (r: u128) {
        self.last_seen as u128
    }
}

/// The places of the confirmed mobs among the first `n` of the list.
pub open spec fn confirmed(cs: CombatState, n: nat) -> Seq<Seen>
    decreases n,
{
    if n == 0 {
        Seq::empty()
    } else {
        let m = cs.mob_list@[n - 1];
        if names(cs.confirmed_mobs@, m.name@) {
            confirmed(cs, (n - 1) as nat).push(
                Seen { at: (n - 1) as usize, last_seen: m.last_seen },
            )
        } else {
            confirmed(cs, (n - 1) as nat)
        }
    }
}

/// The dot of a mob: green while it was seen less than five seconds ago, amber
/// for ten seconds more, grey where it is dead or was not seen for longer.
pub open spec fn dot_of(cs: CombatState, m: MobInstance, now: u64) -> (u8, u8, u8) {
    if names(cs.dead_mobs@, m.name@) || now - m.last_seen >= TIMED_OUT_NANOS {
        DEAD_DOT
    } else if now - m.last_seen < ACTIVE_NANOS {
        ACTIVE_DOT
    } else {
        IDLE_DOT
    }
}

/// Whether an entry of the picker offers a mob.
pub open spec fn offers(
    cs: CombatState,
    m: MobInstance,
    now: u64,
    e: MobPickerCandidate,
) -> bool {
    &&& e.id == Some(m.id)
    &&& e.label@ == m.name@
    &&& e.dot == dot_of(cs, m, now)
}

/// The places of the mobs that the picker offers: the confirmed ones, those
/// seen last first.
pub open spec fn offered(cs: CombatState) -> Seq<Seen> {
    at_most(maps::ranked_down(confirmed(cs, cs.mob_list@.len())), MAX_PICKER_ENTRIES as nat)
}

/// Whether these are the picker's entries.
pub open spec fn is_picker(cs: CombatState, now: u64, entries: Seq<MobPickerCandidate>) -> bool {
    &&& entries.len() == offered(cs).len() + 1
    &&& entries[0].id is None
    &&& entries[0].label@ == AUTO_LABEL@
    &&& entries[0].dot == AUTO_DOT
    &&& forall|i: int|
        0 <= i < offered(cs).len() ==> offers(
            cs,
            cs.mob_list@[offered(cs)[i].at as int],
            now,
            #[trigger] entries[i + 1],
        )
}

proof fn confirmed_within(cs: CombatState, n: nat)
    requires
        n <= cs.mob_list@.len() <= usize::MAX,
    ensures
        forall|i: int| 0 <= i < confirmed(cs, n).len() ==> (#[trigger] confirmed(cs, n)[i]).at < n,
    decreases n,
{
    if n > 0 {
        let before = confirmed(cs, (n - 1) as nat);
        confirmed_within(cs, (n - 1) as nat);
        assert forall|i: int| 0 <= i < confirmed(cs, n).len() implies (#[trigger] confirmed(
            cs,
            n,
        )[i]).at < n by {
            if i < before.len() {
                assert(confirmed(cs, n)[i] == before[i]);
            }
        }
    }
}

proof fn offered_within(cs: CombatState)
    requires
        cs.mob_list@.len() <= usize::MAX,
    ensures
        offered(cs).len() <= MAX_PICKER_ENTRIES,
        forall|i: int|
            0 <= i < offered(cs).len() ==> (#[trigger] offered(cs)[i]).at < cs.mob_list@.len(),
{
    broadcast use vstd::seq_lib::group_to_multiset_ensures;

    let all = confirmed(cs, cs.mob_list@.len());
    let ranked = maps::ranked_down(all);
    confirmed_within(cs, cs.mob_list@.len());
    maps::ranked_down_sorts(all);
    assert forall|i: int| 0 <= i < offered(cs).len() implies (#[trigger] offered(cs)[i]).at
        < cs.mob_list@.len() by {
        assert(offered(cs)[i] == ranked[i]);
        assert(ranked.to_multiset().count(ranked[i]) > 0) by {
            assert(ranked.contains(ranked[i]));
        }
        assert(all.contains(ranked[i]));
    }
}

/// The picker's entries: "Auto" first, then up to `MAX_PICKER_ENTRIES` confirmed
/// mobs, those seen last first. The time now is in nanoseconds.
pub fn build_mob_picker_entries(cs: &CombatState, now: u64) -> (r: Vec<MobPickerCandidate>)
    ensures
        is_picker(*cs, now, r@),
{
    let n: usize = cs.mob_list.len();
    let mut places: Vec<Seen> = Vec::new();
    let mut i: usize = 0;
    while i < n
        invariant
            n == cs.mob_list@.len(),
            i <= n,
            places@ == confirmed(*cs, i as nat),
        decreases n - i,
    {
        let m = &cs.mob_list[i];
        if holds(&cs.confirmed_mobs, m.name.as_str()) {
            places.push(Seen { at: i, last_seen: m.last_seen });
        }
        i += 1;
    }
    let mut sorted = maps::sort_down(places);
    let k: usize = sorted.len();
    if k > MAX_PICKER_ENTRIES {
        sorted.truncate(MAX_PICKER_ENTRIES);
    }
    let mut entries: Vec<MobPickerCandidate> = Vec::new();
    entries.push(MobPickerCandidate { id: None, label: AUTO_LABEL.to_owned(), dot: AUTO_DOT });
    let mut j: usize = 0;
    proof {
        assert(sorted@ == offered(*cs));
        offered_within(*cs);
    }
    while j < sorted.len()
        invariant
            sorted@ == offered(*cs),
            j <= sorted@.len(),
            forall|i: int|
                0 <= i < offered(*cs).len() ==> (#[trigger] offered(*cs)[i]).at
                    < cs.mob_list@.len(),
            entries@.len() == j + 1,
            entries@[0].id is None,
            entries@[0].label@ == AUTO_LABEL@,
            entries@[0].dot == AUTO_DOT,
            forall|i: int|
                0 <= i < j ==> offers(
                    *cs,
                    cs.mob_list@[offered(*cs)[i].at as int],
                    now,
                    #[trigger] entries@[i + 1],
                ),
        decreases sorted@.len() - j,
    {
        let ghost before = entries@;
        proof {
            assert(offered(*cs)[j as int].at < cs.mob_list@.len());
        }
        let m = &cs.mob_list[sorted[j].at];
        let since: u64 = if now < m.last_seen {
            0
        } else {
            now - m.last_seen
        };
        let dot = if holds(&cs.dead_mobs, m.name.as_str()) || since >= TIMED_OUT_NANOS {
            DEAD_DOT
        } else if since < ACTIVE_NANOS {
            ACTIVE_DOT
        } else {
            IDLE_DOT
        };
        entries.push(MobPickerCandidate { id: Some(m.id), label: m.name.clone(), dot });
        proof {
            assert forall|i: int| 0 <= i < j + 1 implies offers(
                *cs,
                cs.mob_list@[offered(*cs)[i].at as int],
                now,
                #[trigger] entries@[i + 1],
            ) by {
                if i < j {
                    assert(entries@[i + 1] == before[i + 1]);
                }
            }
        }
        j += 1;
    }
    entries
}

/// A row of the picker's window: -1 stands for "Auto".
pub struct PickerRow {
    pub id: i32,
    pub label: String,
    pub dot: (u8, u8, u8),
    pub selected: bool,
}

/// The number that stands for an entry.
pub open spec fn row_id(id: Option<u64>) -> i32 {
    match id {
        Some(n) => n as i32,
        None => AUTO_ROW,
    }
}

pub const AUTO_ROW: i32 = -1;

/// Whether a row shows an entry.
pub open spec fn is_picker_row(
    e: MobPickerCandidate,
    pinned: Option<u64>,
    row: PickerRow,
) -> bool {
    &&& row.id == row_id(e.id)
    &&& row.label@ == e.label@
    &&& row.dot == e.dot
    &&& row.selected == (e.id == pinned)
}

/// The rows of the picker's window; the entry that is pinned is selected.
pub fn picker_rows(entries: &Vec<MobPickerCandidate>, pinned: Option<u64>) -> (r: Vec<PickerRow>)
    ensures
        r@.len() == entries@.len(),
        forall|i: int|
            0 <= i < r@.len() ==> is_picker_row(entries@[i], pinned, #[trigger] r@[i]),
{
    let mut rows: Vec<PickerRow> = Vec::new();
    let mut i: usize = 0;
    while i < entries.len()
        invariant
            i <= entries@.len(),
            rows@.len() == i,
            forall|j: int|
                0 <= j < i ==> is_picker_row(entries@[j], pinned, #[trigger] rows@[j]),
        decreases entries@.len() - i,
    {
        let ghost before = rows@;
        let e = &entries[i];
        let id: i32 = match e.id {
            Some(n) => #[verifier::truncate] (n as i32),
            None => AUTO_ROW,
        };
        let selected: bool = match (e.id, pinned) {
            (Some(a), Some(b)) => a == b,
            (None, None) => true,
            _ => false,
        };
        rows.push(PickerRow { id, label: e.label.clone(), dot: e.dot, selected });
        proof {
            assert forall|j: int| 0 <= j < i + 1 implies is_picker_row(
                entries@[j],
                pinned,
                #[trigger] rows@[j],
            ) by {
                if j < i {
                    assert(rows@[j] == before[j]);
                }
            }
        }
        i += 1;
    }
    rows
}

/// The pin that choosing a row sets.
pub open spec fn pin_of_row(id: i32) -> Option<u64> {
    if id >= 0 {
        Some(id as u64)
    } else {
        None
    }
}

/// Choosing a row pins its mob, or none for "Auto", and closes the picker.
pub fn pick_mob(pinned: &mut Option<u64>, picker_open: &mut bool, id: i32)
    ensures
        *final(pinned) == pin_of_row(id),
        *final(picker_open) == false,
{
    *pinned = if id >= 0 {
        Some(id as u64)
    } else {
        None
    };
    *picker_open = false;
}

// ── Texts ───────────────────────────────────────────────────────────────────

/// A quantity with one decimal, without it where it is zero.
pub open spec fn short_tenths(t: nat) -> Seq<char> {
    if t % 10 == 0 {
        text::decimal(t / 10)
    } else {
        number::tenths_text(t)
    }
}

/// A number in thousands or millions where it is large.
pub open spec fn k_text(n: u64) -> Seq<char> {
    if n >= 1_000_000 {
        short_tenths(number::tenths(n as nat, 1_000_000)) + "M"@
    } else if n >= 1_000 {
        short_tenths(number::tenths(n as nat, 1_000)) + "K"@
    } else {
        text::decimal(n as nat)
    }
}

fn push_short_tenths(out: &mut String, t: u64)
    ensures
        final(out)@ == old(out)@ + short_tenths(t as nat),
{
    if t % 10 == 0 {
        text::push_decimal(out, t / 10);
    } else {
        number::push_tenths(out, t);
    }
}

/// A number in thousands or millions, with one decimal, where it is large.
pub fn fmt_k(n: u64) -> (r: String)
    ensures
        r@ == k_text(n),
{
    let mut out: String = String::new();
    proof {
        number::doubles_are_near(n as nat);
    }
    if n >= 1_000_000 {
        push_short_tenths(&mut out, number::tenths_of(n, 1_000_000));
        out.append("M");
    } else if n >= 1_000 {
        push_short_tenths(&mut out, number::tenths_of(n, 1_000));
        out.append("K");
    } else {
        text::push_decimal(&mut out, n);
    }
    proof {
        assert(out@ =~= k_text(n));
    }
    out
}

/// A number in two digits or more.
pub open spec fn two_digits(n: nat) -> Seq<char> {
    if n < 10 {
        "0"@ + text::decimal(n)
    } else {
        text::decimal(n)
    }
}

/// A time in minutes and seconds, or in seconds below a minute.
pub open spec fn clock_text(secs: u64) -> Seq<char> {
    if secs >= 60 {
        text::decimal((secs / 60) as nat) + ":"@ + two_digits((secs % 60) as nat)
    } else {
        text::decimal(secs as nat) + "s"@
    }
}

/// A time in minutes and seconds, or in seconds below a minute.
pub fn fmt_duration(secs: u64) -> (r: String)
    ensures
        r@ == clock_text(secs),
{
    let mut out: String = String::new();
    if secs >= 60 {
        text::push_decimal(&mut out, secs / 60);
        out.append(":");
        if secs % 60 < 10 {
            out.append("0");
        }
        text::push_decimal(&mut out, secs % 60);
    } else {
        text::push_decimal(&mut out, secs);
        out.append("s");
    }
    proof {
        assert(out@ =~= clock_text(secs));
    }
    out
}

/// A row of the summary: the place, the name, the total and the share in
/// percent.
pub open spec fn ranked_text(place: nat, row: RowData, percent: u64) -> Seq<char> {
    text::decimal(place) + ". "@ + row.name@ + " "@ + k_text(row.total) + " ("@ + text::decimal(
        percent as nat,
    ) + "%)"@
}

/// The rows of the summary, with commas between them.
pub open spec fn ranked_texts(rows: Seq<RowData>, percents: Seq<u64>, n: nat) -> Seq<char>
    decreases n,
{
    if n == 0 {
        Seq::empty()
    } else if n == 1 {
        ranked_text(1, rows[0], percents[0])
    } else {
        ranked_texts(rows, percents, (n - 1) as nat) + ", "@ + ranked_text(
            n,
            rows[n - 1],
            percents[n - 1],
        )
    }
}

/// The summary of a fight in one line.
pub open spec fn summary_text(
    t: MeterTotals,
    tab: MeterTab,
    footer_rate: u64,
    elapsed_secs: u64,
    percents: Seq<u64>,
) -> Seq<char> {
    let head = t.mob_name@ + ": "@ + k_text(t.footer_total) + (if tab.counts_damage() {
        " dmg ("@
    } else {
        " heal ("@
    }) + k_text(footer_rate) + (if tab.counts_damage() {
        " dps) over "@
    } else {
        " hps) over "@
    }) + clock_text(elapsed_secs);
    if t.rows@.len() == 0 {
        head
    } else {
        head + " | "@ + ranked_texts(t.rows@, percents, t.rows@.len())
    }
}

/// One raid-chat-friendly line summarizing a fight: plain ASCII only, but for
/// the names. The rate, the seconds and the rows' shares of the total come
/// rounded.
pub fn build_summary_line(
    t: &MeterTotals,
    tab: MeterTab,
    footer_rate: u64,
    elapsed_secs: u64,
    percents: &Vec<u64>,
) -> (r: String)
    requires
        percents@.len() == t.rows@.len(),
    ensures
        r@ == summary_text(*t, tab, footer_rate, elapsed_secs, percents@),
{
    let damage: bool = tab == MeterTab::Dps || tab == MeterTab::Tank;
    let mut line: String = t.mob_name.clone();
    line.append(": ");
    line.append(fmt_k(t.footer_total).as_str());
    if damage {
        line.append(" dmg (");
    } else {
        line.append(" heal (");
    }
    line.append(fmt_k(footer_rate).as_str());
    if damage {
        line.append(" dps) over ");
    } else {
        line.append(" hps) over ");
    }
    line.append(fmt_duration(elapsed_secs).as_str());
    let n: usize = t.rows.len();
    if n > 0 {
        line.append(" | ");
        let ghost head = line@;
        let mut i: usize = 0;
        proof {
            assert(head + ranked_texts(t.rows@, percents@, 0) =~= head);
        }
        while i < n
            invariant
                n == t.rows@.len(),
                percents@.len() == n,
                i <= n,
                line@ == head + ranked_texts(t.rows@, percents@, i as nat),
            decreases n - i,
        {
            let ghost before = line@;
            if i > 0 {
                line.append(", ");
            }
            text::push_decimal(&mut line, i as u64 + 1);
            line.append(". ");
            line.append(t.rows[i].name.as_str());
            line.append(" ");
            line.append(fmt_k(t.rows[i].total).as_str());
            line.append(" (");
            text::push_decimal(&mut line, percents[i]);
            line.append("%)");
            proof {
                let place = ranked_text((i + 1) as nat, t.rows@[i as int], percents@[i as int]);
                if i == 0 {
                    assert(line@ =~= before + place);
                } else {
                    assert(line@ =~= before + ", "@ + place);
                    assert(before + ", "@ + place =~= head + (ranked_texts(
                        t.rows@,
                        percents@,
                        i as nat,
                    ) + ", "@ + place));
                }
                assert(line@ =~= head + ranked_texts(t.rows@, percents@, (i + 1) as nat));
            }
            i += 1;
        }
        proof {
            assert(line@ =~= summary_text(*t, tab, footer_rate, elapsed_secs, percents@));
        }
    }
    line
}

/// The label under the rows: a pin where the mob was chosen by hand, the name,
/// and a caret that shows whether the picker is open.
pub open spec fn mob_label_text(mob_name: Seq<char>, pinned: bool, picker_open: bool) -> Seq<char> {
    (if pinned {
        "\u{1F4CC} "@
    } else {
        Seq::empty()
    }) + mob_name + " "@ + (if picker_open {
        "\u{25B4}"@
    } else {
        "\u{25BE}"@
    })
}

/// The label under the rows.
pub fn mob_label(mob_name: &str, pinned: bool, picker_open: bool) -> (r: String)
    ensures
        r@ == mob_label_text(mob_name@, pinned, picker_open),
{
    let mut out: String = String::new();
    if pinned {
        out.append("\u{1F4CC} ");
    }
    out.append(mob_name);
    out.append(" ");
    if picker_open {
        out.append("\u{25B4}");
    } else {
        out.append("\u{25BE}");
    }
    proof {
        assert(out@ =~= mob_label_text(mob_name@, pinned, picker_open));
    }
    out
}

// ── The window ──────────────────────────────────────────────────────────────

/// Label of the window while there is no fight to show.
pub const PLACEHOLDER_LABEL: &'static str = "Drag to position — DPS Meter";

/// The position that was saved for the window; nothing where it was never
/// placed.
pub fn saved_position(x: i32, y: i32) -> (r: Option<(i32, i32)>)
    ensures
        r == if x >= 0 && y >= 0 {
            Some((x, y))
        } else {
            None
        },
{
    if x >= 0 && y >= 0 {
        Some((x, y))
    } else {
        None
    }
}

/// What the meter's window knows of the settings, and what it showed last.
#[derive(Clone, Copy, PartialEq, Eq, Structural)]
pub struct MeterState {
    pub meter_enabled: bool,
    pub max_rows: usize,
    pub idle_secs: u32,
    pub last_active_mob_id: Option<u64>,
    pub last_footer_total: u64,
    /// Time of the last change, in nanoseconds.
    pub last_change: u64,
    pub visible: bool,
    pub force_show: bool,
    pub locked: bool,
    pub tick_count: u64,
}

/// What a tick does.
pub enum MeterAction {
    /// There is nothing to show.
    Nothing { window: WindowChange },
    /// There is no fight yet, but the window is shown to be placed.
    Placeholder { window: WindowChange, to_top: bool },
    /// The fight did not change for long.
    Idle { window: WindowChange },
    /// A fight is shown.
    Fight { window: WindowChange, to_top: bool, mob_id: u64, totals: MeterTotals },
}

/// A number of rows, at least one.
pub open spec fn row_limit(n: usize) -> usize {
    if n < 1 {
        1
    } else {
        n
    }
}

impl MeterState {
    /// Whether the state mirrors the settings.
    pub open spec fn mirrors<F>(&self, cfg: Config<F>, force_show: bool) -> bool {
        &&& self.meter_enabled == cfg.overlay_meter.enabled
        &&& self.max_rows == row_limit(cfg.meter_max_rows)
        &&& self.idle_secs == cfg.meter_idle_secs
        &&& self.locked == cfg.overlay_meter.locked
        &&& self.force_show == force_show
    }

    /// The state of a window that was just created.
    pub fn new<F>(cfg: &Config<F>, force_show: bool, now: u64) -> (r: Self)
        ensures
            r.mirrors(*cfg, force_show),
            r.last_active_mob_id is None,
            r.last_footer_total == 0,
            r.last_change == now,
            !r.visible,
            r.tick_count == 0,
    {
        MeterState {
            meter_enabled: cfg.overlay_meter.enabled,
            max_rows: if cfg.meter_max_rows < 1 {
                1
            } else {
                cfg.meter_max_rows
            },
            idle_secs: cfg.meter_idle_secs,
            last_active_mob_id: None,
            last_footer_total: 0,
            last_change: now,
            visible: false,
            force_show,
            locked: cfg.overlay_meter.locked,
            tick_count: 0,
        }
    }

    /// Reload live-tunable settings from config.
    pub fn sync_config<F>(&mut self, cfg: &Config<F>, force_show: bool)
        ensures
            final(self).mirrors(*cfg, force_show),
            *final(self) == (MeterState {
                meter_enabled: final(self).meter_enabled,
                max_rows: final(self).max_rows,
                idle_secs: final(self).idle_secs,
                locked: final(self).locked,
                force_show: final(self).force_show,
                ..*old(self)
            }),
    {
        self.meter_enabled = cfg.overlay_meter.enabled;
        self.max_rows = if cfg.meter_max_rows < 1 {
            1
        } else {
            cfg.meter_max_rows
        };
        self.idle_secs = cfg.meter_idle_secs;
        self.locked = cfg.overlay_meter.locked;
        self.force_show = force_show;
    }

    /// The mob that a tick shows: between two fights the one fought last.
    pub open spec fn shown_mob(&self, cs: CombatState, pinned: Option<u64>) -> Option<u64> {
        match cs.view_mob(pinned) {
            Some(id) => Some(id),
            None => self.last_active_mob_id,
        }
    }

    /// Whether a tick counts as a change: another mob, or another total.
    pub open spec fn changed(&self, mob_id: u64, total: nat) -> bool {
        self.last_active_mob_id != Some(mob_id) || self.last_footer_total != total
    }

    /// Whether a fight that last changed at `last_change` is hidden.
    pub open spec fn idles(&self, last_change: u64, now: u64) -> bool {
        &&& !self.force_show
        &&& self.idle_secs > 0
        &&& now - last_change > self.idle_secs * 1_000_000_000
    }

    /// One tick, once the settings are synchronised. A pin whose mob is no
    /// longer listed is dropped, so that the meter follows the player again.
    /// The window shows where there is a fight and the meter is on, or where
    /// all windows are shown to be placed; it hides while nothing changes.
    pub fn tick(
        &mut self,
        cs: &CombatState,
        pinned: &mut Option<u64>,
        picker_open: &mut bool,
        tab: MeterTab,
        now: u64,
    ) -> (r: MeterAction)
        requires
            old(self).tick_count < u64::MAX,
            forall|id: u64| grand_total(tab, #[trigger] tab_entries(*cs, id, tab)) <= u64::MAX,
        ensures
            *final(pinned) == cs.live_pin(*old(pinned)),
            final(self).tick_count == old(self).tick_count + 1,
            final(self).meter_enabled == old(self).meter_enabled,
            final(self).max_rows == old(self).max_rows,
            final(self).idle_secs == old(self).idle_secs,
            final(self).force_show == old(self).force_show,
            final(self).locked == old(self).locked,
            ({
                let shown = old(self).shown_mob(*cs, *old(pinned));
                let to_top = final(self).tick_count % TOPMOST_TICKS == 0;
                match r {
                    MeterAction::Nothing { window } => {
                        &&& !old(self).force_show
                        &&& !old(self).meter_enabled || shown is None
                        &&& window == alert::window_change(old(self).visible, false)
                        &&& !final(self).visible
                        &&& !*final(picker_open)
                        &&& final(self).last_active_mob_id == old(self).last_active_mob_id
                        &&& final(self).last_footer_total == old(self).last_footer_total
                        &&& final(self).last_change == old(self).last_change
                    },
                    MeterAction::Placeholder { window, to_top: top } => {
                        &&& old(self).force_show
                        &&& shown is None
                        &&& window == alert::window_change(old(self).visible, true)
                        &&& top == to_top
                        &&& final(self).visible
                        &&& *final(picker_open) == *old(picker_open)
                        &&& final(self).last_active_mob_id == old(self).last_active_mob_id
                        &&& final(self).last_footer_total == old(self).last_footer_total
                        &&& final(self).last_change == old(self).last_change
                    },
                    MeterAction::Idle { window } => {
                        &&& old(self).meter_enabled
                        &&& shown is Some
                        &&& final(self).idles(final(self).last_change, now)
                        &&& window == alert::window_change(old(self).visible, false)
                        &&& !final(self).visible
                        &&& *final(picker_open) == *old(picker_open)
                    },
                    MeterAction::Fight { window, to_top: top, mob_id, totals } => {
                        &&& old(self).force_show || old(self).meter_enabled
                        &&& shown == Some(mob_id)
                        &&& !final(self).idles(final(self).last_change, now)
                        &&& window == alert::window_change(old(self).visible, true)
                        &&& top == to_top
                        &&& final(self).visible
                        &&& *final(picker_open) == *old(picker_open)
                        &&& is_snapshot(*cs, mob_id, tab, old(self).max_rows as nat, totals)
                    },
                }
            }),
            (r is Idle || r is Fight) ==> ({
                let id = old(self).shown_mob(*cs, *old(pinned)).unwrap();
                let total = grand_total(tab, tab_entries(*cs, id, tab));
                &&& final(self).last_active_mob_id == Some(id)
                &&& final(self).last_footer_total == total
                &&& final(self).last_change == if old(self).changed(id, total) {
                    now
                } else {
                    old(self).last_change
                }
            }),
    {
        self.tick_count = self.tick_count + 1;
        if let Some(p) = *pinned {
            if cs.find_mob(p).is_none() {
                *pinned = None;
            }
        }
        let shown: Option<u64> = match cs.resolve_view_mob_id(*pinned) {
            Some(id) => Some(id),
            None => self.last_active_mob_id,
        };
        let was: bool = self.visible;
        let hide = if was {
            WindowChange::Hide
        } else {
            WindowChange::Keep
        };
        let show = if was {
            WindowChange::Keep
        } else {
            WindowChange::Show
        };
        let to_top: bool = self.tick_count % TOPMOST_TICKS == 0;
        if !(self.force_show || (self.meter_enabled && shown.is_some())) {
            self.visible = false;
            *picker_open = false;
            return MeterAction::Nothing { window: hide };
        }
        let mob_id: u64 = match shown {
            Some(id) => id,
            None => {
                self.visible = true;
                return MeterAction::Placeholder { window: show, to_top };
            },
        };
        proof {
            assert(grand_total(tab, tab_entries(*cs, mob_id, tab)) <= u64::MAX);
        }
        let totals = compute_snapshot(cs, mob_id, tab, self.max_rows);
        let same_mob: bool = match self.last_active_mob_id {
            Some(id) => id == mob_id,
            None => false,
        };
        if !same_mob || totals.footer_total != self.last_footer_total {
            self.last_change = now;
            self.last_active_mob_id = Some(mob_id);
            self.last_footer_total = totals.footer_total;
        }
        if !self.force_show && self.idle_secs > 0 && now > self.last_change && now
            - self.last_change > self.idle_secs as u64 * 1_000_000_000 {
            self.visible = false;
            return MeterAction::Idle { window: hide };
        }
        self.visible = true;
        MeterAction::Fight { window: show, to_top, mob_id, totals }
    }
}

// ── Laws ────────────────────────────────────────────────────────────────────

/// Where no mob is pinned the meter follows a mob that the player is engaged
/// with, and none that they are engaged with was seen later: the fights of
/// others do not count.
pub proof fn follows_the_players_own_fight(cs: CombatState, n: nat)
    requires
        n <= cs.mob_list@.len(),
    ensures
        match cs.freshest(n) {
            Some(j) => {
                &&& 0 <= j < n
                &&& cs.engaged(cs.mob_list@[j].id)
                &&& forall|i: int|
                    0 <= i < n && cs.engaged((#[trigger] cs.mob_list@[i]).id)
                        ==> cs.mob_list@[i].last_seen <= cs.mob_list@[j].last_seen
            },
            None => forall|i: int|
                0 <= i < n ==> !cs.engaged((#[trigger] cs.mob_list@[i]).id),
        },
    decreases n,
{
    if n > 0 {
        follows_the_players_own_fight(cs, (n - 1) as nat);
    }
}

/// The rows are in descending order, no more than asked for, and none is made
/// up: each shows an entity that the tab lists.
pub proof fn rows_are_ranked(
    cs: CombatState,
    mob_id: u64,
    tab: MeterTab,
    max_rows: nat,
    t: MeterTotals,
)
    requires
        is_snapshot(cs, mob_id, tab, max_rows, t),
    ensures
        maps::descending(t.rows@),
        t.rows@.len() <= max_rows,
        forall|i: int|
            0 <= i < t.rows@.len() ==> exists|j: int|
                0 <= j < tab_entries(cs, mob_id, tab).len() && is_row(
                    cs,
                    tab,
                    #[trigger] tab_entries(cs, mob_id, tab)[j],
                    #[trigger] t.rows@[i],
                ),
{
    broadcast use vstd::seq_lib::group_to_multiset_ensures;

    let entries = tab_entries(cs, mob_id, tab);
    let all = choose|all: Seq<RowData>|
        are_rows(cs, tab, entries, all) && t.rows@ == #[trigger] at_most(
            maps::ranked_down(all),
            max_rows,
        );
    let ranked = maps::ranked_down(all);
    maps::ranked_down_sorts(all);
    assert forall|i: int| 0 <= i < t.rows@.len() implies exists|j: int|
        0 <= j < entries.len() && is_row(cs, tab, #[trigger] entries[j], #[trigger] t.rows@[i]) by {
        assert(t.rows@[i] == ranked[i]);
        assert(ranked.contains(ranked[i]));
        assert(ranked.to_multiset().count(ranked[i]) > 0);
        assert(all.contains(ranked[i]));
        let j = choose|j: int| 0 <= j < all.len() && all[j] == ranked[i];
        assert(is_row(cs, tab, entries[j], all[j]));
    }
}

/// Whether no two rows have the same name.
pub open spec fn rows_once(rows: Seq<RowData>) -> bool {
    forall|i: int, j: int|
        0 <= i < j < rows.len() ==> (#[trigger] rows[i]).name@ != (#[trigger] rows[j]).name@
}

proof fn filtering_keeps_names_once(s: Seq<EntityEntry>, keeps: spec_fn(EntityEntry) -> bool)
    requires
        names_once(s),
    ensures
        names_once(s.filter(keeps)),
        forall|i: int|
            0 <= i < s.filter(keeps).len() ==> s.contains(#[trigger] s.filter(keeps)[i]),
    decreases s.len(),
{
    reveal(Seq::filter);
    if s.len() > 0 {
        let t = s.drop_last();
        filtering_keeps_names_once(t, keeps);
        let f = t.filter(keeps);
        let all = s.filter(keeps);
        assert forall|i: int| 0 <= i < all.len() implies s.contains(#[trigger] all[i]) by {
            if i < f.len() {
                assert(f[i] == all[i]);
                let k = choose|k: int| 0 <= k < t.len() && t[k] == f[i];
                assert(s[k] == all[i]);
            } else {
                assert(s[s.len() - 1] == all[i]);
            }
        }
        assert forall|i: int, j: int| 0 <= i < j < all.len() implies (#[trigger] all[i]).name@ != (
        #[trigger] all[j]).name@ by {
            assert(f[i] == all[i]);
            if j < f.len() {
                assert(f[j] == all[j]);
            } else {
                let k = choose|k: int| 0 <= k < t.len() && t[k] == f[i];
                assert(s[k].name@ != s[s.len() - 1].name@);
            }
        }
    }
}

proof fn ranking_keeps_rows_once(s: Seq<RowData>)
    requires
        rows_once(s),
    ensures
        rows_once(maps::ranked_down(s)),
        forall|i: int|
            0 <= i < maps::ranked_down(s).len() ==> s.contains(
                #[trigger] maps::ranked_down(s)[i],
            ),
    decreases s.len(),
{
    if s.len() > 0 {
        let d = s.drop_last();
        let x = s.last();
        ranking_keeps_rows_once(d);
        let t = maps::ranked_down(d);
        maps::place_within(t, x.rank());
        let p = maps::place_of(t, x.rank()) as int;
        let u = t.insert(p, x);
        assert forall|k: int| 0 <= k < t.len() implies s.contains(#[trigger] t[k]) && t[k].name@
            != x.name@ by {
            let i = choose|i: int| 0 <= i < d.len() && d[i] == t[k];
            assert(s[i] == t[k]);
            assert(s[i].name@ != s[s.len() - 1].name@);
        }
        assert(s[s.len() - 1] == x);
        assert forall|i: int| 0 <= i < u.len() implies s.contains(#[trigger] u[i]) by {
            if i < p {
                assert(u[i] == t[i]);
            } else if i > p {
                assert(u[i] == t[i - 1]);
            }
        }
        assert forall|i: int, j: int| 0 <= i < j < u.len() implies (#[trigger] u[i]).name@ != (
        #[trigger] u[j]).name@ by {
            let i2 = if i < p { i } else { i - 1 };
            let j2 = if j < p { j } else { j - 1 };
            if i != p {
                assert(u[i] == t[i2]);
            }
            if j != p {
                assert(u[j] == t[j2]);
            }
        }
    }
}

/// Where each entity has one entry in a fight, each has at most one row in the
/// meter.
pub proof fn everyone_has_one_row(
    cs: CombatState,
    mob_id: u64,
    tab: MeterTab,
    max_rows: nat,
    t: MeterTotals,
)
    requires
        is_snapshot(cs, mob_id, tab, max_rows, t),
        forall|i: int| 0 <= i < tab.buckets(cs).len() ==> (#[trigger] tab.buckets(cs)[i]).is_map(),
    ensures
        rows_once(t.rows@),
{
    let entries = bucket_entries(tab.buckets(cs), mob_id);
    bucket_index_within(tab.buckets(cs), mob_id);
    filtering_keeps_names_once(entries, |e: EntityEntry| lists(cs, tab, e.name@));
    let want = tab_entries(cs, mob_id, tab);
    let all = choose|all: Seq<RowData>|
        are_rows(cs, tab, want, all) && t.rows@ == #[trigger] at_most(
            maps::ranked_down(all),
            max_rows,
        );
    assert forall|i: int, j: int| 0 <= i < j < all.len() implies (#[trigger] all[i]).name@ != (
    #[trigger] all[j]).name@ by {
        assert(is_row(cs, tab, want[i], all[i]) && is_row(cs, tab, want[j], all[j]));
        assert(want[i].name@ != want[j].name@);
    }
    ranking_keeps_rows_once(all);
}

proof fn bucket_index_within(v: Seq<Bucket>, id: u64)
    ensures
        bucket_index(v, id) matches Some(i) ==> 0 <= i < v.len(),
    decreases v.len(),
{
    if v.len() > 0 {
        bucket_index_within(v.drop_last(), id);
        bucket_index_within(v.skip(1), id);
    }
}

/// The picker never has more than seven entries, and the first is "Auto".
pub proof fn picker_is_short(cs: CombatState, now: u64, entries: Seq<MobPickerCandidate>)
    requires
        cs.mob_list@.len() <= usize::MAX,
        is_picker(cs, now, entries),
    ensures
        1 <= entries.len() <= MAX_PICKER_ENTRIES + 1,
        entries[0].id is None,
{
    offered_within(cs);
}

/// Choosing the row of a mob pins that mob, as long as its number fits the row;
/// choosing "Auto" clears the pin.
pub proof fn choosing_a_row_pins_its_mob(id: Option<u64>)
    requires
        id matches Some(n) ==> n <= i32::MAX,
    ensures
        pin_of_row(row_id(id)) == id,
{
}

} // verus!
