//! What holds of the meter as a whole, over all fights.
use vstd::prelude::*;

use crate::config::Config;
use crate::maps;
use crate::number;
use crate::overlay::alert;
use crate::overlay::alert_laws;
use crate::overlay::meter;
use crate::overlay::meter::are_rows;
use crate::overlay::meter::at_most;
use crate::overlay::meter::bucket_entries;
use crate::overlay::meter::bucket_index;
use crate::overlay::meter::clock_text;
use crate::overlay::meter::confirmed;
use crate::overlay::meter::grand_total;
use crate::overlay::meter::is_picker;
use crate::overlay::meter::is_row;
use crate::overlay::meter::is_snapshot;
use crate::overlay::meter::k_text;
use crate::overlay::meter::lists;
use crate::overlay::meter::offered;
use crate::overlay::meter::offers;
use crate::overlay::meter::tab_entries;
use crate::overlay::meter::Bucket;
use crate::overlay::meter::CombatState;
use crate::overlay::meter::EntityCombatStats;
use crate::overlay::meter::EntityEntry;
use crate::overlay::meter::MobPickerCandidate;
use crate::overlay::meter::RowData;
use crate::overlay::meter::Seen;
use crate::server::admin_laws;
use crate::text;
use crate::overlay::meter::MeterState;
use crate::overlay::meter::MeterTab;
use crate::overlay::meter::MeterTotals;

verus! {

proof fn first_listed_is_first(cs: CombatState, i: int, n: nat)
    requires
        0 <= i < n <= cs.mob_list@.len(),
        forall|j: int| 0 <= j < i ==> (#[trigger] cs.mob_list@[j]).id != cs.mob_list@[i].id,
    ensures
        cs.first_listed(cs.mob_list@[i].id, n) == Some(i),
    decreases n,
{
    let id = cs.mob_list@[i].id;
    if i < n - 1 {
        first_listed_is_first(cs, i, (n - 1) as nat);
    } else {
        none_listed_before(cs, id, i as nat);
    }
}

proof fn none_listed_before(cs: CombatState, id: u64, n: nat)
    requires
        n <= cs.mob_list@.len(),
        forall|j: int| 0 <= j < n ==> (#[trigger] cs.mob_list@[j]).id != id,
    ensures
        cs.first_listed(id, n) is None,
    decreases n,
{
    if n > 0 {
        none_listed_before(cs, id, (n - 1) as nat);
    }
}

/// A fight with a listed mob lasts from the first sight of it to the last: its
/// length, put behind the first sight, gives the last. One of less than a
/// millisecond counts as a millisecond. The snapshot of the fight shows that
/// length, and the mob's own name.
pub proof fn fights_last_from_first_to_last_sight(cs: CombatState, i: int)
    requires
        0 <= i < cs.mob_list@.len(),
        forall|j: int| 0 <= j < i ==> (#[trigger] cs.mob_list@[j]).id != cs.mob_list@[i].id,
    ensures
        ({
            let m = cs.mob_list@[i];
            let length = cs.fight_nanos(m.id);
            &&& length >= 1_000_000
            &&& m.first_seen + 1_000_000 <= m.last_seen ==> m.first_seen + length == m.last_seen
            &&& m.first_seen + 1_000_000 > m.last_seen ==> length == 1_000_000
            &&& forall|tab: MeterTab, max_rows: nat, t: MeterTotals|
                #[trigger] is_snapshot(cs, m.id, tab, max_rows, t) ==> t.elapsed_nanos == length
                    && t.mob_name@ == m.name@
        }),
{
    first_listed_is_first(cs, i, cs.mob_list@.len());
}

/// When a fight took place does not count: a fight that began and ended later
/// by the same time is as long.
pub proof fn later_fights_are_as_long(a: CombatState, b: CombatState, later: int, i: int)
    requires
        0 <= i < a.mob_list@.len() == b.mob_list@.len(),
        forall|j: int|
            0 <= j < a.mob_list@.len() ==> {
                &&& (#[trigger] b.mob_list@[j]).id == a.mob_list@[j].id
                &&& b.mob_list@[j].first_seen == a.mob_list@[j].first_seen + later
                &&& b.mob_list@[j].last_seen == a.mob_list@[j].last_seen + later
            },
    ensures
        a.fight_nanos(a.mob_list@[i].id) == b.fight_nanos(a.mob_list@[i].id),
{
    let id = a.mob_list@[i].id;
    let k = first_with(a, id, i);
    first_listed_is_first(a, k, a.mob_list@.len());
    assert(b.mob_list@[k].id == id);
    assert forall|j: int| 0 <= j < k implies (#[trigger] b.mob_list@[j]).id
        != b.mob_list@[k].id by {
        assert(a.mob_list@[j].id != id);
    }
    first_listed_is_first(b, k, b.mob_list@.len());
}

proof fn first_with(cs: CombatState, id: u64, i: int) -> (k: int)
    requires
        0 <= i < cs.mob_list@.len(),
        cs.mob_list@[i].id == id,
    ensures
        0 <= k <= i,
        cs.mob_list@[k].id == id,
        forall|j: int| 0 <= j < k ==> (#[trigger] cs.mob_list@[j]).id != cs.mob_list@[k].id,
    decreases i,
{
    if exists|j: int| 0 <= j < i && (#[trigger] cs.mob_list@[j]).id == id {
        let j = choose|j: int| 0 <= j < i && (#[trigger] cs.mob_list@[j]).id == id;
        first_with(cs, id, j)
    } else {
        i
    }
}

/// A mob that is not listed is shown with the name and the length of the fight
/// as a whole, a millisecond at least.
pub proof fn unlisted_mobs_show_the_whole_fight(
    cs: CombatState,
    id: u64,
    tab: MeterTab,
    max_rows: nat,
    t: MeterTotals,
)
    requires
        forall|j: int| 0 <= j < cs.mob_list@.len() ==> (#[trigger] cs.mob_list@[j]).id != id,
        is_snapshot(cs, id, tab, max_rows, t),
    ensures
        t.mob_name@ == cs.mob_name@,
        cs.elapsed_nanos >= 1_000_000 ==> t.elapsed_nanos == cs.elapsed_nanos,
        cs.elapsed_nanos < 1_000_000 ==> t.elapsed_nanos == 1_000_000,
{
    none_listed_before(cs, id, cs.mob_list@.len());
}

// ── Rows and totals ─────────────────────────────────────────────────────────

/// Whether no two lists are of the same fight.
pub open spec fn fights_once(v: Seq<Bucket>) -> bool {
    forall|i: int, j: int|
        0 <= i < j < v.len() ==> (#[trigger] v[i]).mob_id != (#[trigger] v[j]).mob_id
}

proof fn bucket_found(v: Seq<Bucket>, b: int)
    requires
        fights_once(v),
        0 <= b < v.len(),
    ensures
        bucket_index(v, v[b].mob_id) == Some(b),
    decreases v.len(),
{
    let d = v.drop_last();
    if b < v.len() - 1 {
        assert(d[b] == v[b]);
        assert(fights_once(d)) by {
            assert forall|i: int, j: int| 0 <= i < j < d.len() implies (#[trigger] d[i]).mob_id
                != (#[trigger] d[j]).mob_id by {
                assert(d[i] == v[i] && d[j] == v[j]);
            }
        }
        bucket_found(d, b);
    } else {
        assert forall|i: int| 0 <= i < d.len() implies (#[trigger] d[i]).mob_id != v[b].mob_id by {
            assert(d[i] == v[i]);
        }
        bucket_missing(d, v[b].mob_id);
    }
}

proof fn bucket_missing(v: Seq<Bucket>, id: u64)
    requires
        forall|i: int| 0 <= i < v.len() ==> (#[trigger] v[i]).mob_id != id,
    ensures
        bucket_index(v, id) is None,
    decreases v.len(),
{
    if v.len() > 0 {
        let d = v.drop_last();
        assert forall|i: int| 0 <= i < d.len() implies (#[trigger] d[i]).mob_id != id by {
            assert(d[i] == v[i]);
        }
        bucket_missing(d, id);
    }
}

proof fn bucket_index_points(v: Seq<Bucket>, id: u64)
    ensures
        bucket_index(v, id) matches Some(i) ==> 0 <= i < v.len() && v[i].mob_id == id,
    decreases v.len(),
{
    if v.len() > 0 {
        bucket_index_points(v.drop_last(), id);
    }
}

/// The sum of what some rows show.
pub open spec fn rows_sum(rows: Seq<RowData>) -> nat
    decreases rows.len(),
{
    if rows.len() == 0 {
        0
    } else {
        rows_sum(rows.drop_last()) + rows.last().total as nat
    }
}

proof fn rows_sum_splits(a: Seq<RowData>, b: Seq<RowData>)
    ensures
        rows_sum(a + b) == rows_sum(a) + rows_sum(b),
    decreases b.len(),
{
    if b.len() == 0 {
        assert(a + b =~= a);
    } else {
        assert((a + b).drop_last() =~= a + b.drop_last());
        assert((a + b).last() == b.last());
        rows_sum_splits(a, b.drop_last());
    }
}

proof fn ranking_keeps_the_sum(s: Seq<RowData>)
    ensures
        rows_sum(maps::ranked_down(s)) == rows_sum(s),
        maps::ranked_down(s).len() == s.len(),
    decreases s.len(),
{
    if s.len() > 0 {
        let d = s.drop_last();
        let x = s.last();
        ranking_keeps_the_sum(d);
        let t = maps::ranked_down(d);
        maps::place_within(t, maps::Ranked::rank(&x));
        let p = maps::place_of(t, maps::Ranked::rank(&x)) as int;
        assert(t.insert(p, x) =~= t.take(p) + seq![x] + t.skip(p));
        assert(t =~= t.take(p) + t.skip(p));
        rows_sum_splits(t.take(p), t.skip(p));
        rows_sum_splits(t.take(p) + seq![x], t.skip(p));
        rows_sum_splits(t.take(p), seq![x]);
        assert(seq![x].drop_last() =~= Seq::<RowData>::empty());
        assert(rows_sum(seq![x]) == x.total as nat) by {
            assert(rows_sum(Seq::<RowData>::empty()) == 0);
        }
    }
}

proof fn totals_are_the_rows(
    cs: CombatState,
    tab: MeterTab,
    entries: Seq<EntityEntry>,
    rows: Seq<RowData>,
)
    requires
        are_rows(cs, tab, entries, rows),
    ensures
        grand_total(tab, entries) == rows_sum(rows),
    decreases entries.len(),
{
    if entries.len() > 0 {
        assert(is_row(cs, tab, entries[rows.len() - 1], rows[rows.len() - 1]));
        let e = entries.drop_last();
        let r = rows.drop_last();
        assert forall|i: int| 0 <= i < r.len() implies is_row(cs, tab, e[i], #[trigger] r[i]) by {
            assert(r[i] == rows[i]);
        }
        totals_are_the_rows(cs, tab, e, r);
    }
}

/// The rows add up to no more than the sum under them. They add up to just that
/// sum unless the window is full: whoever has no row still counts in it.
pub proof fn rows_add_up(
    cs: CombatState,
    mob_id: u64,
    tab: MeterTab,
    max_rows: nat,
    t: MeterTotals,
)
    requires
        is_snapshot(cs, mob_id, tab, max_rows, t),
    ensures
        rows_sum(t.rows@) <= t.footer_total,
        t.rows@.len() < max_rows ==> rows_sum(t.rows@) == t.footer_total,
{
    let entries = tab_entries(cs, mob_id, tab);
    let all = choose|all: Seq<RowData>|
        are_rows(cs, tab, entries, all) && t.rows@ == #[trigger] at_most(
            maps::ranked_down(all),
            max_rows,
        );
    totals_are_the_rows(cs, tab, entries, all);
    ranking_keeps_the_sum(all);
    let ranked = maps::ranked_down(all);
    if all.len() > max_rows {
        let k = max_rows as int;
        assert(ranked =~= ranked.take(k) + ranked.skip(k));
        rows_sum_splits(ranked.take(k), ranked.skip(k));
    }
}

/// How many rows the window has does not change the sum under them, the name or
/// the length, and a smaller window shows the first rows of a larger one.
pub proof fn smaller_windows_show_the_best(
    cs: CombatState,
    mob_id: u64,
    tab: MeterTab,
    few: nat,
    many: nat,
    small: MeterTotals,
    large: MeterTotals,
)
    requires
        few <= many,
        is_snapshot(cs, mob_id, tab, few, small),
        is_snapshot(cs, mob_id, tab, many, large),
    ensures
        small.footer_total == large.footer_total,
        small.mob_name@ == large.mob_name@,
        small.elapsed_nanos == large.elapsed_nanos,
        small.rows@.len() <= large.rows@.len(),
        small.rows@.len() < large.rows@.len() ==> small.rows@.len() == few,
        forall|i: int|
            0 <= i < small.rows@.len() ==> (#[trigger] small.rows@[i]).total
                == large.rows@[i].total && small.rows@[i].name@ == large.rows@[i].name@,
{
    let entries = tab_entries(cs, mob_id, tab);
    let a = choose|all: Seq<RowData>|
        are_rows(cs, tab, entries, all) && small.rows@ == #[trigger] at_most(
            maps::ranked_down(all),
            few,
        );
    let b = choose|all: Seq<RowData>|
        are_rows(cs, tab, entries, all) && large.rows@ == #[trigger] at_most(
            maps::ranked_down(all),
            many,
        );
    assert forall|i: int| 0 <= i < a.len() implies (#[trigger] a[i]).total == b[i].total
        && a[i].name@ == b[i].name@ by {
        assert(is_row(cs, tab, entries[i], a[i]));
        assert(is_row(cs, tab, entries[i], b[i]));
    }
    ranks_agree(a, b);
}

spec fn show_alike(a: Seq<RowData>, b: Seq<RowData>) -> bool {
    a.len() == b.len() && forall|i: int|
        0 <= i < a.len() ==> (#[trigger] a[i]).total == b[i].total && a[i].name@ == b[i].name@
}

proof fn places_agree(a: Seq<RowData>, b: Seq<RowData>, r: nat)
    requires
        show_alike(a, b),
    ensures
        maps::place_of(a, r) == maps::place_of(b, r),
    decreases a.len(),
{
    if a.len() > 0 {
        let c = a.drop_first();
        let d = b.drop_first();
        assert(a[0].total == b[0].total);
        assert forall|i: int| 0 <= i < c.len() implies (#[trigger] c[i]).total == d[i].total
            && c[i].name@ == d[i].name@ by {
            assert(a[i + 1].total == b[i + 1].total);
        }
        places_agree(c, d, r);
    }
}

proof fn ranks_agree(a: Seq<RowData>, b: Seq<RowData>)
    requires
        show_alike(a, b),
    ensures
        show_alike(maps::ranked_down(a), maps::ranked_down(b)),
    decreases a.len(),
{
    if a.len() > 0 {
        assert(a[a.len() - 1].total == b[a.len() - 1].total);
        let c = a.drop_last();
        let d = b.drop_last();
        assert forall|i: int| 0 <= i < c.len() implies (#[trigger] c[i]).total == d[i].total
            && c[i].name@ == d[i].name@ by {
            assert(a[i].total == b[i].total);
        }
        ranks_agree(c, d);
        let s = maps::ranked_down(c);
        let t = maps::ranked_down(d);
        let r = a.last().total as nat;
        places_agree(s, t, r);
        maps::place_within(s, r);
        let p = maps::place_of(s, r) as int;
        let x = a.last();
        let y = b.last();
        assert forall|i: int| 0 <= i < s.len() + 1 implies (#[trigger] s.insert(p, x)[i]).total
            == t.insert(p, y)[i].total && s.insert(p, x)[i].name@ == t.insert(p, y)[i].name@ by {
            if i < p {
                assert(s[i].total == t[i].total);
            } else if i > p {
                assert(s[i - 1].total == t[i - 1].total);
            }
        }
    }
}

/// What a tab counts of an entity, in a list of fights.
pub open spec fn counts(
    cs: CombatState,
    tab: MeterTab,
    v: Seq<Bucket>,
    e: EntityEntry,
    amount: u64,
) -> bool {
    ||| tab == MeterTab::Dps && v == cs.mob_damage@ && amount == e.stats.total_damage
    ||| tab == MeterTab::Tank && v == cs.mob_tanking@ && amount == e.stats.total_damage
    ||| tab == MeterTab::Heal && v == cs.mob_healing@ && amount == e.stats.total_heals
    ||| tab == MeterTab::HealReceived && v == cs.mob_healed@ && amount
        == e.stats.total_healed_received
}

/// Whoever is in a fight has a row with what they did in it, damage dealt,
/// damage taken, healing done or healing received by the tab, or else the
/// window is full of rows that show at least as much. Only the mobs among the
/// tanks are left out, of the rows as of the sum.
pub proof fn everyone_in_the_fight_is_ranked(
    cs: CombatState,
    v: Seq<Bucket>,
    b: int,
    k: int,
    amount: u64,
    tab: MeterTab,
    max_rows: nat,
    t: MeterTotals,
)
    requires
        fights_once(v),
        0 <= b < v.len(),
        0 <= k < v[b].entries@.len(),
        counts(cs, tab, v, v[b].entries@[k], amount),
        tab == MeterTab::Tank ==> forall|i: int|
            0 <= i < cs.confirmed_mobs@.len() ==> (#[trigger] cs.confirmed_mobs@[i])@
                != v[b].entries@[k].name@,
        is_snapshot(cs, v[b].mob_id, tab, max_rows, t),
    ensures
        (exists|i: int|
            0 <= i < t.rows@.len() && (#[trigger] t.rows@[i]).name@ == v[b].entries@[k].name@
                && t.rows@[i].total == amount) || (t.rows@.len() == max_rows && forall|i: int|
            0 <= i < t.rows@.len() ==> (#[trigger] t.rows@[i]).total >= amount),
        t.footer_total >= amount,
{
    broadcast use vstd::seq_lib::group_to_multiset_ensures;

    let e = v[b].entries@[k];
    let keeps = |e: EntityEntry| lists(cs, tab, e.name@);
    bucket_found(v, b);
    assert(tab.buckets(cs) == v);
    let entries = tab_entries(cs, v[b].mob_id, tab);
    let all = choose|all: Seq<RowData>|
        are_rows(cs, tab, entries, all) && t.rows@ == #[trigger] at_most(
            maps::ranked_down(all),
            max_rows,
        );
    assert(keeps(e));
    v[b].entries@.filter_lemma(keeps);
    assert(v[b].entries@.contains(e));
    assert(entries.contains(e)) by {
        filter_holds(v[b].entries@, keeps, k);
    }
    let at = choose|at: int| 0 <= at < entries.len() && entries[at] == e;
    assert(is_row(cs, tab, entries[at], all[at]));
    let ranked = maps::ranked_down(all);
    maps::ranked_down_sorts(all);
    assert(all.contains(all[at]));
    assert(ranked.to_multiset().count(all[at]) > 0);
    assert(ranked.contains(all[at]));
    let q = choose|q: int| 0 <= q < ranked.len() && ranked[q] == all[at];
    if q < t.rows@.len() {
        assert(t.rows@[q].name@ == e.name@);
    } else {
        assert forall|i: int| 0 <= i < t.rows@.len() implies (#[trigger] t.rows@[i]).total
            >= amount by {
            assert(t.rows@[i] == ranked[i]);
            assert(maps::Ranked::rank(&ranked[i]) >= maps::Ranked::rank(&ranked[q]));
        }
    }
    totals_are_the_rows(cs, tab, entries, all);
    one_of_a_sum(all, at);
}

proof fn one_of_a_sum(rows: Seq<RowData>, i: int)
    requires
        0 <= i < rows.len(),
    ensures
        rows[i].total <= rows_sum(rows),
    decreases rows.len(),
{
    if i < rows.len() - 1 {
        one_of_a_sum(rows.drop_last(), i);
    }
}

proof fn filter_holds(s: Seq<EntityEntry>, keeps: spec_fn(EntityEntry) -> bool, k: int)
    requires
        0 <= k < s.len(),
        keeps(s[k]),
    ensures
        s.filter(keeps).contains(s[k]),
    decreases s.len(),
{
    reveal(Seq::filter);
    let d = s.drop_last();
    if k < s.len() - 1 {
        filter_holds(d, keeps, k);
        let f = d.filter(keeps);
        let i = choose|i: int| 0 <= i < f.len() && f[i] == s[k];
        assert(s.filter(keeps)[i] == s[k]);
    } else {
        let f = s.filter(keeps);
        assert(f[f.len() - 1] == s[k]);
    }
}

proof fn filter_from(s: Seq<EntityEntry>, keeps: spec_fn(EntityEntry) -> bool, i: int)
    requires
        0 <= i < s.filter(keeps).len(),
    ensures
        s.contains(s.filter(keeps)[i]),
        keeps(s.filter(keeps)[i]),
    decreases s.len(),
{
    reveal(Seq::filter);
    if s.len() > 0 {
        let d = s.drop_last();
        let f = d.filter(keeps);
        if i < f.len() {
            filter_from(d, keeps, i);
            let k = choose|k: int| 0 <= k < d.len() && d[k] == f[i];
            assert(s[k] == f[i]);
        } else {
            assert(s[s.len() - 1] == s.filter(keeps)[i]);
        }
    }
}

/// Every row is of somebody in that very fight, and shows what they did in it;
/// among the tanks none is of a mob.
pub proof fn rows_are_of_the_fight(
    cs: CombatState,
    mob_id: u64,
    i: int,
    tab: MeterTab,
    max_rows: nat,
    t: MeterTotals,
)
    requires
        is_snapshot(cs, mob_id, tab, max_rows, t),
        0 <= i < t.rows@.len(),
    ensures
        t.rows@.len() <= max_rows,
        i > 0 ==> t.rows@[i - 1].total >= t.rows@[i].total,
        exists|v: Seq<Bucket>, b: int, k: int|
            0 <= b < v.len() && 0 <= k < v[b].entries@.len() && v[b].mob_id == mob_id && v[
                b
            ].entries@[k].name@ == t.rows@[i].name@ && #[trigger] counts(
                cs,
                tab,
                v,
                v[b].entries@[k],
                t.rows@[i].total,
            ),
        tab == MeterTab::Tank ==> forall|j: int|
            0 <= j < cs.confirmed_mobs@.len() ==> (#[trigger] cs.confirmed_mobs@[j])@
                != t.rows@[i].name@,
{
    broadcast use vstd::seq_lib::group_to_multiset_ensures;

    let v = tab.buckets(cs);
    let keeps = |e: EntityEntry| lists(cs, tab, e.name@);
    let entries = tab_entries(cs, mob_id, tab);
    let all = choose|all: Seq<RowData>|
        are_rows(cs, tab, entries, all) && t.rows@ == #[trigger] at_most(
            maps::ranked_down(all),
            max_rows,
        );
    let ranked = maps::ranked_down(all);
    maps::ranked_down_sorts(all);
    assert(t.rows@[i] == ranked[i]);
    if i > 0 {
        assert(maps::Ranked::rank(&ranked[i - 1]) >= maps::Ranked::rank(&ranked[i]));
    }
    assert(ranked.contains(ranked[i]));
    assert(ranked.to_multiset().count(ranked[i]) > 0);
    assert(all.contains(ranked[i]));
    let at = choose|at: int| 0 <= at < all.len() && all[at] == ranked[i];
    assert(is_row(cs, tab, entries[at], all[at]));
    filter_from(bucket_entries(v, mob_id), keeps, at);
    bucket_index_points(v, mob_id);
    let b = bucket_index(v, mob_id)->0;
    let k = choose|k: int| 0 <= k < v[b].entries@.len() && v[b].entries@[k] == entries[at];
    assert(counts(cs, tab, v, v[b].entries@[k], t.rows@[i].total));
}

// ── Which fight is shown ────────────────────────────────────────────────────

/// Whether somebody of that name is in the fight with a mob, in a list of
/// fights.
pub open spec fn fights_in(v: Seq<Bucket>, id: u64, name: Seq<char>) -> bool {
    exists|b: int, k: int|
        0 <= b < v.len() && 0 <= k < v[b].entries@.len() && v[b].mob_id == id && (
        #[trigger] v[b].entries@[k]).name@ == name
}

/// The player's fights are those in which they, or a pet that belongs to them,
/// deal damage or take it. Healing somebody who fights makes no fight the
/// player's own, nor does the pet of somebody else.
pub proof fn fights_are_the_players_own(cs: CombatState, id: u64)
    requires
        fights_once(cs.mob_damage@),
        fights_once(cs.mob_tanking@),
    ensures
        cs.engaged(id) <==> {
            ||| fights_in(cs.mob_damage@, id, cs.player_name@)
            ||| fights_in(cs.mob_tanking@, id, cs.player_name@)
            ||| exists|p: int|
                0 <= p < cs.known_pets@.len() && (#[trigger] cs.known_pets@[p]).owner@
                    == cs.player_name@ && (fights_in(cs.mob_damage@, id, cs.known_pets@[p].name@)
                    || fights_in(cs.mob_tanking@, id, cs.known_pets@[p].name@))
        },
{
    part_in(cs, cs.mob_damage@, id);
    part_in(cs, cs.mob_tanking@, id);
}

proof fn part_in(cs: CombatState, v: Seq<Bucket>, id: u64)
    requires
        fights_once(v),
    ensures
        cs.takes_part(bucket_entries(v, id)) <==> {
            ||| fights_in(v, id, cs.player_name@)
            ||| exists|p: int|
                0 <= p < cs.known_pets@.len() && (#[trigger] cs.known_pets@[p]).owner@
                    == cs.player_name@ && fights_in(v, id, cs.known_pets@[p].name@)
        },
{
    let entries = bucket_entries(v, id);
    bucket_index_points(v, id);
    if cs.takes_part(entries) {
        let k = choose|k: int| 0 <= k < entries.len() && cs.is_own(#[trigger] entries[k].name@);
        let b = bucket_index(v, id)->0;
        assert(v[b].entries@[k] == entries[k]);
        assert(fights_in(v, id, entries[k].name@));
    }
    assert forall|name: Seq<char>| #[trigger] fights_in(v, id, name) && cs.is_own(name) implies
        cs.takes_part(entries) by {
        let (b, k) = choose|b: int, k: int|
            0 <= b < v.len() && 0 <= k < v[b].entries@.len() && v[b].mob_id == id && (
            #[trigger] v[b].entries@[k]).name@ == name;
        bucket_found(v, b);
        assert(cs.is_own(entries[k].name@));
    }
}

/// A mob that was pinned is shown as long as it is listed. Else the meter shows
/// a listed mob that the player is engaged with, and none of those was seen
/// later; it shows none where there is none.
pub proof fn pinned_mobs_come_first(cs: CombatState, pinned: Option<u64>)
    ensures
        pinned matches Some(p) ==> (exists|i: int|
            0 <= i < cs.mob_list@.len() && (#[trigger] cs.mob_list@[i]).id == p) ==> cs.view_mob(
            pinned,
        ) == Some(p) && cs.live_pin(pinned) == Some(p),
        !(pinned matches Some(p) && exists|i: int|
            0 <= i < cs.mob_list@.len() && (#[trigger] cs.mob_list@[i]).id == p) ==> {
            &&& cs.live_pin(pinned) is None
            &&& match cs.view_mob(pinned) {
                Some(id) => exists|j: int|
                    0 <= j < cs.mob_list@.len() && (#[trigger] cs.mob_list@[j]).id == id
                        && cs.engaged(id) && forall|i: int|
                        0 <= i < cs.mob_list@.len() && cs.engaged((#[trigger] cs.mob_list@[i]).id)
                            ==> cs.mob_list@[i].last_seen <= cs.mob_list@[j].last_seen,
                None => forall|i: int|
                    0 <= i < cs.mob_list@.len() ==> !cs.engaged((#[trigger] cs.mob_list@[i]).id),
            }
        },
{
    meter::follows_the_players_own_fight(cs, cs.mob_list@.len());
    if let Some(p) = pinned {
        if exists|i: int| 0 <= i < cs.mob_list@.len() && (#[trigger] cs.mob_list@[i]).id == p {
            let i = choose|i: int|
                0 <= i < cs.mob_list@.len() && (#[trigger] cs.mob_list@[i]).id == p;
            let k = first_with(cs, p, i);
            first_listed_is_first(cs, k, cs.mob_list@.len());
        } else {
            none_listed_before(cs, p, cs.mob_list@.len());
        }
    }
}

// ── The picker ──────────────────────────────────────────────────────────────

/// Whether a list of names holds a name.
pub open spec fn named(v: Seq<String>, name: Seq<char>) -> bool {
    v.map_values(|s: String| s@).contains(name)
}

proof fn named_is_names(v: Seq<String>, name: Seq<char>)
    ensures
        named(v, name) == meter::names(v, name),
{
    let t = v.map_values(|s: String| s@);
    if meter::names(v, name) {
        let i = choose|i: int| 0 <= i < v.len() && (#[trigger] v[i])@ == name;
        assert(t[i] == name);
    }
    if named(v, name) {
        let i = choose|i: int| 0 <= i < t.len() && t[i] == name;
        assert(v[i]@ == name);
    }
}

proof fn confirmed_places(cs: CombatState, n: nat)
    requires
        n <= cs.mob_list@.len() <= usize::MAX,
    ensures
        forall|i: int|
            0 <= i < confirmed(cs, n).len() ==> {
                let s = #[trigger] confirmed(cs, n)[i];
                s.at < n && s.last_seen == cs.mob_list@[s.at as int].last_seen && meter::names(
                    cs.confirmed_mobs@,
                    cs.mob_list@[s.at as int].name@,
                )
            },
        forall|k: int|
            0 <= k < n && meter::names(cs.confirmed_mobs@, (#[trigger] cs.mob_list@[k]).name@)
                ==> confirmed(cs, n).contains(
                Seen { at: k as usize, last_seen: cs.mob_list@[k].last_seen },
            ),
    decreases n,
{
    if n > 0 {
        let before = confirmed(cs, (n - 1) as nat);
        confirmed_places(cs, (n - 1) as nat);
        let now = confirmed(cs, n);
        assert forall|i: int| 0 <= i < now.len() implies {
            let s = #[trigger] now[i];
            s.at < n && s.last_seen == cs.mob_list@[s.at as int].last_seen && meter::names(
                cs.confirmed_mobs@,
                cs.mob_list@[s.at as int].name@,
            )
        } by {
            if i < before.len() {
                assert(now[i] == before[i]);
            }
        }
        assert forall|k: int|
            0 <= k < n && meter::names(
                cs.confirmed_mobs@,
                (#[trigger] cs.mob_list@[k]).name@,
            ) implies now.contains(
            Seen { at: k as usize, last_seen: cs.mob_list@[k].last_seen },
        ) by {
            let s = Seen { at: k as usize, last_seen: cs.mob_list@[k].last_seen };
            if k < n - 1 {
                assert(before.contains(s));
                let i = choose|i: int| 0 <= i < before.len() && before[i] == s;
                assert(now[i] == s);
            } else {
                assert(now[now.len() - 1] == s);
            }
        }
    }
}

/// Whether an entry of the picker shows a mob: its number and name, with a green
/// dot where it was seen within the last five seconds, an amber one within the
/// last fifteen, and a grey one where it is dead or was not seen for longer.
pub open spec fn shows_mob(cs: CombatState, k: int, now: u64, e: MobPickerCandidate) -> bool {
    let m = cs.mob_list@[k];
    let dead = named(cs.dead_mobs@, m.name@);
    &&& 0 <= k < cs.mob_list@.len()
    &&& e.id == Some(m.id)
    &&& e.label@ == m.name@
    &&& !dead && now < m.last_seen + 5_000_000_000 ==> e.dot == (80u8, 200u8, 100u8)
    &&& !dead && m.last_seen + 5_000_000_000 <= now < m.last_seen + 15_000_000_000 ==> e.dot == (
        220u8,
        180u8,
        60u8,
    )
    &&& dead || m.last_seen + 15_000_000_000 <= now ==> e.dot == (110u8, 110u8, 118u8)
}

/// After "Auto" the picker offers confirmed mobs, those seen last first; every
/// confirmed mob has an entry unless six that were seen no earlier have one.
pub proof fn picker_offers_the_latest(cs: CombatState, now: u64, entries: Seq<MobPickerCandidate>)
    requires
        cs.mob_list@.len() <= usize::MAX,
        is_picker(cs, now, entries),
    ensures
        entries.len() >= 1,
        entries[0].id is None,
        exists|at: Seq<int>| #[trigger] offers_places(cs, now, entries, at),
{
    broadcast use vstd::seq_lib::group_to_multiset_ensures;

    let all = confirmed(cs, cs.mob_list@.len());
    let ranked = maps::ranked_down(all);
    let off = offered(cs);
    confirmed_places(cs, cs.mob_list@.len());
    maps::ranked_down_sorts(all);
    let at = Seq::new(off.len(), |i: int| off[i].at as int);
    assert forall|i: int| 0 <= i < off.len() implies all.contains(#[trigger] off[i]) by {
        assert(off[i] == ranked[i]);
        assert(ranked.contains(ranked[i]));
        assert(ranked.to_multiset().count(ranked[i]) > 0);
    }
    assert forall|i: int| 0 <= i < at.len() implies shows_mob(
        cs,
        #[trigger] at[i],
        now,
        entries[i + 1],
    ) && named(cs.confirmed_mobs@, cs.mob_list@[at[i]].name@) by {
        assert(all.contains(off[i]));
        assert(offers(cs, cs.mob_list@[off[i].at as int], now, entries[i + 1]));
        named_is_names(cs.dead_mobs@, cs.mob_list@[at[i]].name@);
        named_is_names(cs.confirmed_mobs@, cs.mob_list@[at[i]].name@);
    }
    assert forall|i: int, j: int| 0 <= i < j < at.len() implies cs.mob_list@[
        #[trigger] at[i]
    ].last_seen >= cs.mob_list@[#[trigger] at[j]].last_seen by {
        assert(all.contains(off[i]) && all.contains(off[j]));
        assert(off[i] == ranked[i] && off[j] == ranked[j]);
        assert(maps::Ranked::rank(&ranked[i]) >= maps::Ranked::rank(&ranked[j]));
    }
    assert forall|k: int|
        0 <= k < cs.mob_list@.len() && named(
            cs.confirmed_mobs@,
            (#[trigger] cs.mob_list@[k]).name@,
        ) implies at.contains(k) || (at.len() == 6 && forall|i: int|
        0 <= i < 6 ==> cs.mob_list@[#[trigger] at[i]].last_seen >= cs.mob_list@[k].last_seen) by {
        named_is_names(cs.confirmed_mobs@, cs.mob_list@[k].name@);
        let s = Seen { at: k as usize, last_seen: cs.mob_list@[k].last_seen };
        assert(all.contains(s));
        assert(ranked.to_multiset().count(s) > 0);
        assert(ranked.contains(s));
        let q = choose|q: int| 0 <= q < ranked.len() && ranked[q] == s;
        if q < off.len() {
            assert(at[q] == k);
        } else {
            assert forall|i: int| 0 <= i < 6 implies cs.mob_list@[#[trigger] at[i]].last_seen
                >= cs.mob_list@[k].last_seen by {
                assert(all.contains(off[i]));
                assert(off[i] == ranked[i]);
                assert(maps::Ranked::rank(&ranked[i]) >= maps::Ranked::rank(&ranked[q]));
            }
        }
    }
    assert(offers_places(cs, now, entries, at));
}

/// Whether the entries after the first show the mobs at some places of the list,
/// and these are the right ones.
pub open spec fn offers_places(
    cs: CombatState,
    now: u64,
    entries: Seq<MobPickerCandidate>,
    at: Seq<int>,
) -> bool {
    &&& entries.len() == at.len() + 1
    &&& at.len() <= 6
    &&& forall|i: int|
        0 <= i < at.len() ==> shows_mob(cs, #[trigger] at[i], now, entries[i + 1]) && named(
            cs.confirmed_mobs@,
            cs.mob_list@[at[i]].name@,
        )
    &&& forall|i: int, j: int|
        0 <= i < j < at.len() ==> cs.mob_list@[#[trigger] at[i]].last_seen >= cs.mob_list@[
            #[trigger] at[j]
        ].last_seen
    &&& forall|k: int|
        0 <= k < cs.mob_list@.len() && named(
            cs.confirmed_mobs@,
            (#[trigger] cs.mob_list@[k]).name@,
        ) ==> at.contains(k) || (at.len() == 6 && forall|i: int|
            0 <= i < 6 ==> cs.mob_list@[#[trigger] at[i]].last_seen >= cs.mob_list@[k].last_seen)
}

// ── Texts ───────────────────────────────────────────────────────────────────

/// From a minute on a time is read as minutes and seconds, the seconds in two
/// digits; below a minute as seconds.
pub proof fn times_are_minutes_and_seconds(minutes: nat, seconds: nat)
    requires
        seconds < 60,
        60 * minutes + seconds <= u64::MAX,
    ensures
        minutes > 0 ==> clock_text((60 * minutes + seconds) as u64) == text::decimal(minutes)
            + seq![':', text::digit(seconds / 10), text::digit(seconds % 10)],
        minutes == 0 ==> clock_text(seconds as u64) == text::decimal(seconds) + seq!['s'],
{
    reveal_strlit("0");
    reveal_strlit(":");
    reveal_strlit("s");
    assert("s"@ =~= seq!['s']);
    if minutes > 0 {
        let secs = (60 * minutes + seconds) as u64;
        assert(secs / 60 == minutes && secs % 60 == seconds) by (nonlinear_arith)
            requires
                secs == 60 * minutes + seconds,
                seconds < 60,
        ;
        reveal_with_fuel(text::decimal, 3);
        assert(clock_text(secs) =~= text::decimal(minutes) + seq![
            ':',
            text::digit(seconds / 10),
            text::digit(seconds % 10),
        ]);
    }
}

/// The power of two that takes a number to the precision of a double is large.
proof fn scaling_is_precise(n: nat, d: nat)
    requires
        n > 0,
        d > 0,
    ensures
        number::scale(n, d) * n >= d * 0x10_0000_0000_0000,
        number::scale(n, d) >= 1,
    decreases
            (if n < d * 0x10_0000_0000_0000 {
                d * 0x10_0000_0000_0000 - n
            } else {
                0
            }),
{
    if n < d * 0x10_0000_0000_0000 {
        scaling_is_precise(2 * n, d);
        let s = number::scale(2 * n, d);
        assert(number::scale(n, d) == 2 * s);
        assert((2 * s) * n == s * (2 * n)) by (nonlinear_arith);
    } else {
        assert(number::scale(n, d) == 1);
    }
}

proof fn tenths_are_near(n: nat, d: nat)
    requires
        1_000 <= d,
        0 < n < 0x20_0000_0000_0000,
    ensures
        -6 * d <= 10 * (number::tenths(n, d) * d - 10 * n) <= 6 * d,
{
    admin_laws::small_integers_are_exact(n);
    let s = number::scale(n, d);
    let m = number::rounded(n * s, d);
    let t = number::rounded(m * 10, s);
    scaling_is_precise(n, d);
    admin_laws::rounding_is_to_the_nearest(n * s, d);
    admin_laws::rounding_is_to_the_nearest(m * 10, s);
    assert(s >= 50) by (nonlinear_arith)
        requires
            s * n >= d * 0x10_0000_0000_0000,
            n < 0x20_0000_0000_0000,
            d >= 1_000,
    ;
    assert(-6 * d <= 10 * (t * d - 10 * n) <= 6 * d) by (nonlinear_arith)
        requires
            2 * (m * d - n * s) <= d,
            2 * (n * s - m * d) <= d,
            2 * (t * s - m * 10) <= s,
            2 * (m * 10 - t * s) <= s,
            s >= 50,
            d >= 1,
    ;
}

/// Amounts below a thousand are shown as they are, below a million in thousands,
/// and from there on in millions. They are shown with one decimal, which is left
/// out where it is zero, and are off by six hundredths of the unit at most.
/// Amounts from 2^53 on are left out.
pub proof fn amounts_are_read_to_a_tenth(n: u64) -> (tenths: nat)
    requires
        n < 0x20_0000_0000_0000,
    ensures
        n < 1_000 ==> k_text(n) == text::decimal(n as nat),
        n >= 1_000 ==> k_text(n) == text::decimal(tenths / 10) + (if tenths % 10 == 0 {
            Seq::<char>::empty()
        } else {
            seq!['.', text::digit(tenths % 10)]
        }) + (if n < 1_000_000 {
            seq!['K']
        } else {
            seq!['M']
        }),
        1_000 <= n < 1_000_000 ==> -60 <= 100 * tenths - n <= 60,
        n >= 1_000_000 ==> -60_000 <= 100_000 * tenths - n <= 60_000,
{
    reveal_strlit("K");
    reveal_strlit("M");
    reveal_strlit(".");
    if n < 1_000 {
        0
    } else {
        let d: nat = if n < 1_000_000 {
            1_000
        } else {
            1_000_000
        };
        tenths_are_near(n as nat, d);
        let t = number::tenths(n as nat, d);
        if n < 1_000_000 {
            assert(t * d == 1_000 * t) by (nonlinear_arith)
                requires
                    d == 1_000,
            ;
        } else {
            assert(t * d == 1_000_000 * t) by (nonlinear_arith)
                requires
                    d == 1_000_000,
            ;
        }
        assert(text::decimal(t % 10) =~= seq![text::digit(t % 10)]);
        assert(k_text(n) =~= text::decimal(t / 10) + (if t % 10 == 0 {
            Seq::<char>::empty()
        } else {
            seq!['.', text::digit(t % 10)]
        }) + (if n < 1_000_000 {
            seq!['K']
        } else {
            seq!['M']
        }));
        t
    }
}

/// Whether a text stands somewhere in another.
pub open spec fn holds_text(s: Seq<char>, p: Seq<char>) -> bool {
    exists|a: Seq<char>, b: Seq<char>| s == #[trigger] (a + p + b)
}

proof fn rows_are_in_the_list(rows: Seq<RowData>, percents: Seq<u64>, n: nat, i: int)
    requires
        0 <= i < n,
        n <= rows.len() == percents.len(),
    ensures
        holds_text(
            meter::ranked_texts(rows, percents, n),
            text::decimal((i + 1) as nat) + ". "@ + rows[i].name@ + " "@ + k_text(rows[i].total)
                + " ("@ + text::decimal(percents[i] as nat) + "%)"@,
        ),
    decreases n,
{
    let p = text::decimal((i + 1) as nat) + ". "@ + rows[i].name@ + " "@ + k_text(rows[i].total)
        + " ("@ + text::decimal(percents[i] as nat) + "%)"@;
    let s = meter::ranked_texts(rows, percents, n);
    let none = Seq::<char>::empty();
    if n == 1 {
        assert(s =~= none + p + none);
    } else if i == n - 1 {
        let a = meter::ranked_texts(rows, percents, (n - 1) as nat) + ", "@;
        assert(s =~= a + p + none);
    } else {
        rows_are_in_the_list(rows, percents, (n - 1) as nat, i);
        let (a, b) = choose|a: Seq<char>, b: Seq<char>|
            meter::ranked_texts(rows, percents, (n - 1) as nat) == #[trigger] (a + p + b);
        let c = b + ", "@ + meter::ranked_text(n, rows[n - 1], percents[n - 1]);
        assert(s =~= a + p + c);
    }
}

/// The summary begins with the mob's name and the total, and shows everyone who
/// has a row with their place, name, total and share.
pub proof fn summaries_name_everyone(
    t: MeterTotals,
    tab: MeterTab,
    rate: u64,
    secs: u64,
    percents: Seq<u64>,
    i: int,
)
    requires
        percents.len() == t.rows@.len(),
        0 <= i < t.rows@.len(),
    ensures
        ({
            let s = meter::summary_text(t, tab, rate, secs, percents);
            &&& (t.mob_name@ + ": "@ + k_text(t.footer_total)).is_prefix_of(s)
            &&& holds_text(
                s,
                text::decimal((i + 1) as nat) + ". "@ + t.rows@[i].name@ + " "@ + k_text(
                    t.rows@[i].total,
                ) + " ("@ + text::decimal(percents[i] as nat) + "%)"@,
            )
            &&& holds_text(s, " over "@ + clock_text(secs) + " | "@) || holds_text(
                s,
                ") over "@ + clock_text(secs),
            )
            &&& holds_text(s, "("@ + k_text(rate) + (if tab == MeterTab::Dps || tab
                == MeterTab::Tank {
                " dps)"@
            } else {
                " hps)"@
            }))
        }),
{
    let n = t.rows@.len();
    let damage = tab == MeterTab::Dps || tab == MeterTab::Tank;
    let what = if damage {
        " dmg ("@
    } else {
        " heal ("@
    };
    let unit = if damage {
        " dps) over "@
    } else {
        " hps) over "@
    };
    let s = meter::summary_text(t, tab, rate, secs, percents);
    let start = t.mob_name@ + ": "@ + k_text(t.footer_total);
    let list = meter::ranked_texts(t.rows@, percents, n);
    let head = start + what + k_text(rate) + unit + clock_text(secs);
    assert(s =~= head + " | "@ + list);
    assert(s.subrange(0, start.len() as int) =~= start);
    rows_are_in_the_list(t.rows@, percents, n, i);
    let p = text::decimal((i + 1) as nat) + ". "@ + t.rows@[i].name@ + " "@ + k_text(
        t.rows@[i].total,
    ) + " ("@ + text::decimal(percents[i] as nat) + "%)"@;
    let (a, b) = choose|a: Seq<char>, b: Seq<char>| list == #[trigger] (a + p + b);
    assert(s =~= (head + " | "@ + a) + p + b);
    reveal_strlit(" dps) over ");
    reveal_strlit(" hps) over ");
    reveal_strlit(" dmg (");
    reveal_strlit(" heal (");
    reveal_strlit(") over ");
    reveal_strlit("(");
    reveal_strlit(" dps)");
    reveal_strlit(" hps)");
    let short = if damage {
        " dps)"@
    } else {
        " hps)"@
    };
    assert(unit =~= unit.take(4) + ") over "@);
    assert(s =~= (start + what + k_text(rate) + unit.take(4)) + (") over "@ + clock_text(secs)) + (
    " | "@ + list));
    let m = what.len() - 1;
    assert(what =~= what.take(m) + "("@);
    assert(unit =~= short + unit.skip(5));
    assert(s =~= (start + what.take(m)) + ("("@ + k_text(rate) + short) + (unit.skip(5)
        + clock_text(secs) + " | "@ + list));
}

/// The label under the rows holds the mob's name whole; a pin stands before it
/// just where the mob was chosen by hand.
pub proof fn labels_hold_the_name(name: Seq<char>, open: bool, other: bool)
    ensures
        name.is_prefix_of(meter::mob_label_text(name, false, open)),
        meter::mob_label_text(name, true, open).skip(2) == meter::mob_label_text(
            name,
            false,
            open,
        ),
        meter::mob_label_text(name, true, open).take(2) == seq!['\u{1F4CC}', ' '],
        open != other ==> meter::mob_label_text(name, false, open) != meter::mob_label_text(
            name,
            false,
            other,
        ),
{
    reveal_strlit("\u{1F4CC} ");
    reveal_strlit(" ");
    reveal_strlit("\u{25B4}");
    reveal_strlit("\u{25BE}");
    let plain = meter::mob_label_text(name, false, open);
    let pinned = meter::mob_label_text(name, true, open);
    assert(plain.subrange(0, name.len() as int) =~= name);
    assert(pinned.skip(2) =~= plain);
    assert(pinned.take(2) =~= seq!['\u{1F4CC}', ' ']);
    assert(plain.last() == if open {
        '\u{25B4}'
    } else {
        '\u{25BE}'
    });
    assert(meter::mob_label_text(name, false, other).last() == if other {
        '\u{25B4}'
    } else {
        '\u{25BE}'
    });
}

// ── Colours and time ────────────────────────────────────────────────────────

/// An entity has the colour of the first class that it was seen with; without a
/// class, or with one that is not known, it is grey.
pub proof fn entities_have_the_colour_of_their_class(cs: CombatState, i: int, name: Seq<char>)
    requires
        forall|j: int| 0 <= j < i ==> (#[trigger] cs.player_classes@[j]).name@ != name,
        0 <= i <= cs.player_classes@.len(),
    ensures
        i < cs.player_classes@.len() && cs.player_classes@[i].name@ == name
            && cs.player_classes@[i].codes@.len() > 0 ==> cs.entity_color(name)
            == meter::class_rgb(cs.player_classes@[i].codes@[0]@),
        i < cs.player_classes@.len() && cs.player_classes@[i].name@ == name
            && cs.player_classes@[i].codes@.len() == 0 ==> cs.entity_color(name) == (
            0x46u8,
            0x46u8,
            0x50u8,
        ),
        i == cs.player_classes@.len() ==> cs.entity_color(name) == (0x46u8, 0x46u8, 0x50u8),
{
    class_skips(cs, name, i);
    let none = Seq::<char>::empty();
    codes_are_not_empty();
    assert(meter::class_hex(none) == 0x464650);
    assert(alert::rgb_of(0x464650u32) == (0x46u8, 0x46u8, 0x50u8)) by {
        alert_laws::colours_are_red_green_blue(0x46, 0x46, 0x50);
    }
}

proof fn codes_are_not_empty()
    ensures
        meter::class_hex(Seq::empty()) == 0x464650,
{
    reveal_strlit("WAR");
    reveal_strlit("CLR");
    reveal_strlit("PAL");
    reveal_strlit("RNG");
    reveal_strlit("SHD");
    reveal_strlit("DRU");
    reveal_strlit("MNK");
    reveal_strlit("BRD");
    reveal_strlit("ROG");
    reveal_strlit("SHM");
    reveal_strlit("NEC");
    reveal_strlit("WIZ");
    reveal_strlit("MAG");
    reveal_strlit("ENC");
    reveal_strlit("BST");
    reveal_strlit("BER");
    assert(Seq::<char>::empty().len() == 0);
}

proof fn class_skips(cs: CombatState, name: Seq<char>, i: int)
    requires
        forall|j: int| 0 <= j < i ==> (#[trigger] cs.player_classes@[j]).name@ != name,
        0 <= i <= cs.player_classes@.len(),
    ensures
        cs.class_code(name, cs.player_classes@.len()) == cs.class_code(
            name,
            (cs.player_classes@.len() - i) as nat,
        ),
    decreases i,
{
    if i > 0 {
        class_skips(cs, name, i - 1);
        assert(cs.player_classes@[i - 1].name@ != name);
    }
}

/// A fight is hidden once it did not change for longer than the settings say,
/// unless all windows are shown or no such time is set; when that was does not
/// count, only how long ago.
pub proof fn fights_idle_after_their_time(s: MeterState, changed: u64, now: u64)
    ensures
        s.idles(changed, now) <==> !s.force_show && s.idle_secs > 0 && changed + 1_000_000_000
            * s.idle_secs < now,
{
}

/// Another mob, or more done to the same one, counts as a change; the same total
/// of the same mob does not.
pub proof fn only_news_is_a_change(s: MeterState, mob_id: u64, total: nat)
    ensures
        !s.changed(mob_id, total) <==> s.last_active_mob_id is Some && s.last_active_mob_id->0
            == mob_id && s.last_footer_total == total,
{
}

/// The meter follows the settings, with at least one row.
pub proof fn meters_follow_the_settings<F>(s: MeterState, cfg: Config<F>, force_show: bool)
    requires
        s.mirrors(cfg, force_show),
    ensures
        s.max_rows >= 1,
        cfg.meter_max_rows >= 1 ==> s.max_rows == cfg.meter_max_rows,
        cfg.meter_max_rows == 0 ==> s.max_rows == 1,
        s.meter_enabled == cfg.overlay_meter.enabled,
        s.locked == cfg.overlay_meter.locked,
        s.idle_secs == cfg.meter_idle_secs,
        s.force_show == force_show,
{
}

/// Each tab counts one thing: what changes of the others leaves it as it was. The
/// four tabs stand at the first four places, and no place is without a tab.
pub proof fn tabs_count_one_thing(a: EntityCombatStats, more: EntityCombatStats, i: int)
    ensures
        more.total_damage == a.total_damage ==> MeterTab::Dps.total(more) == MeterTab::Dps.total(a)
            && MeterTab::Tank.total(more) == MeterTab::Tank.total(a),
        more.total_heals == a.total_heals ==> MeterTab::Heal.total(more) == MeterTab::Heal.total(
            a,
        ),
        more.total_healed_received == a.total_healed_received ==> MeterTab::HealReceived.total(more)
            == MeterTab::HealReceived.total(a),
        MeterTab::Dps.total(a) == a.total_damage && MeterTab::Tank.total(a) == a.total_damage,
        MeterTab::Heal.total(a) == a.total_heals,
        MeterTab::HealReceived.total(a) == a.total_healed_received,
        MeterTab::at(0) != MeterTab::at(1) && MeterTab::at(1) != MeterTab::at(2) && MeterTab::at(2)
            != MeterTab::at(3) && MeterTab::at(0) != MeterTab::at(2) && MeterTab::at(0)
            != MeterTab::at(3) && MeterTab::at(1) != MeterTab::at(3),
        MeterTab::at(0).counts_damage() && MeterTab::at(1).counts_damage(),
        !MeterTab::at(2).counts_damage() && !MeterTab::at(3).counts_damage(),
        !(0 <= i < 4) ==> MeterTab::at(i) == MeterTab::at(0),
{
}

/// Each class has a colour of its own, which no other class has; grey is left to
/// what is no class.
pub proof fn classes_have_their_own_colours(a: Seq<char>, b: Seq<char>)
    ensures
        meter::class_hex(a) == meter::class_hex(b) && meter::class_hex(a) != 0x464650 ==> a == b,
        meter::class_hex("WAR"@) != 0x464650,
        meter::class_hex(a) <= 0xFF_FFFF,
{
}

} // verus!
