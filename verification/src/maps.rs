//! Maps from texts, kept in the order in which their keys first came, and
//! sorting that keeps the order of equals.
use vstd::prelude::*;

verus! {

/// What a map can be keyed by: a text or several of them.
pub trait TextKey: Sized {
    /// The texts of the key.
    spec fn key(&self) -> Seq<Seq<char>>;

    /// Whether two keys are the same.
    fn same_key(&self, other: &Self) -> (r: bool)
        ensures
            r == (self.key() == other.key()),
    ;
}

impl TextKey for String {
    open spec fn key(&self) -> Seq<Seq<char>> {
        seq![self@]
    }

    fn same_key(&self, other: &Self) -> (r: bool) {
        proof {
            assert(self.key()[0] == self@);
            assert(other.key()[0] == other@);
        }
        *self == *other
    }
}

impl TextKey for (String, String) {
    open spec fn key(&self) -> Seq<Seq<char>> {
        seq![self.0@, self.1@]
    }

    fn same_key(&self, other: &Self) -> (r: bool) {
        proof {
            assert(self.key()[0] == self.0@);
            assert(self.key()[1] == self.1@);
            assert(other.key()[0] == other.0@);
            assert(other.key()[1] == other.1@);
        }
        self.0 == other.0 && self.1 == other.1
    }
}

/// A map, with its entries in the order in which their keys first came.
pub struct TextMap<K: TextKey, V> {
    keys: Vec<K>,
    values: Vec<V>,
}

/// Keys, each with the value at its place.
pub open spec fn zipped<K, V>(keys: Seq<K>, values: Seq<V>) -> Seq<(K, V)> {
    Seq::new(keys.len(), |i: int| (keys[i], values[i]))
}

/// The map that a list of entries stands for.
pub open spec fn map_of<K: TextKey, V>(s: Seq<(K, V)>) -> Map<Seq<Seq<char>>, V>
    decreases s.len(),
{
    if s.len() == 0 {
        Map::empty()
    } else {
        map_of(s.drop_last()).insert(s.last().0.key(), s.last().1)
    }
}

/// Whether no key occurs twice.
pub open spec fn distinct_keys<K: TextKey, V>(s: Seq<(K, V)>) -> bool {
    forall|i: int, j: int|
        0 <= i < j < s.len() ==> (#[trigger] s[i]).0.key() != (#[trigger] s[j]).0.key()
}

/// The keys of the map are the keys of the list, and each leads to the value
/// beside it.
pub proof fn map_of_entries<K: TextKey, V>(s: Seq<(K, V)>)
    requires
        distinct_keys(s),
    ensures
        forall|k: Seq<Seq<char>>| #[trigger]
            map_of(s).dom().contains(k) ==> exists|i: int|
                0 <= i < s.len() && (#[trigger] s[i]).0.key() == k,
        forall|i: int|
            0 <= i < s.len() ==> map_of(s).dom().contains((#[trigger] s[i]).0.key()) && map_of(
                s,
            )[s[i].0.key()] == s[i].1,
    decreases s.len(),
{
    if s.len() > 0 {
        let t = s.drop_last();
        assert forall|i: int, j: int| 0 <= i < j < t.len() implies (#[trigger] t[i]).0.key() != (
        #[trigger] t[j]).0.key() by {
            assert(s[i].0.key() != s[j].0.key());
        }
        map_of_entries(t);
        assert forall|k: Seq<Seq<char>>| #[trigger]
            map_of(s).dom().contains(k) implies exists|i: int|
            0 <= i < s.len() && (#[trigger] s[i]).0.key() == k by {
            if k == s.last().0.key() {
                assert(s[s.len() - 1].0.key() == k);
            } else {
                assert(map_of(t).dom().contains(k));
                let i = choose|i: int| 0 <= i < t.len() && (#[trigger] t[i]).0.key() == k;
                assert(s[i].0.key() == k);
            }
        }
        assert forall|i: int| 0 <= i < s.len() implies map_of(s).dom().contains(
            (#[trigger] s[i]).0.key(),
        ) && map_of(s)[s[i].0.key()] == s[i].1 by {
            if i < t.len() {
                assert(t[i] == s[i]);
                assert(s[i].0.key() != s[s.len() - 1].0.key());
            }
        }
    }
}

impl<K: TextKey, V> View for TextMap<K, V> {
    type V = Map<Seq<Seq<char>>, V>;

    closed spec fn view(&self) -> Map<Seq<Seq<char>>, V> {
        map_of(zipped(self.keys@, self.values@))
    }
}

impl<K: TextKey, V> TextMap<K, V> {
    /// The entries, in the order in which their keys first came.
    pub closed spec fn entries(&self) -> Seq<(K, V)> {
        zipped(self.keys@, self.values@)
    }

    /// Each key has a value, and no key occurs twice.
    #[verifier::type_invariant]
    closed spec fn wf(&self) -> bool {
        &&& self.keys@.len() == self.values@.len()
        &&& distinct_keys(zipped(self.keys@, self.values@))
    }

    pub fn new() -> (r: Self)
        ensures
            r@ == Map::<Seq<Seq<char>>, V>::empty(),
            r.entries() == Seq::<(K, V)>::empty(),
    {
        let keys: Vec<K> = Vec::new();
        let values: Vec<V> = Vec::new();
        proof {
            assert(zipped(keys@, values@) =~= Seq::<(K, V)>::empty());
            assert(map_of(zipped(keys@, values@)) =~= Map::<Seq<Seq<char>>, V>::empty());
        }
        TextMap { keys, values }
    }

    /// How many keys there are.
    pub fn len(&self) -> (r: usize)
        ensures
            r == self.entries().len(),
            self@ == map_of(self.entries()),
            distinct_keys(self.entries()),
    {
        proof {
            use_type_invariant(self);
        }
        self.keys.len()
    }

    /// The key and the value at `i`.
    pub fn entry_at(&self, i: usize) -> (r: (&K, &V))
        requires
            i < self.entries().len(),
        ensures
            *r.0 == self.entries()[i as int].0,
            *r.1 == self.entries()[i as int].1,
    {
        proof {
            use_type_invariant(self);
        }
        (&self.keys[i], &self.values[i])
    }

    /// Where `key` stands.
    fn find(&self, key: &K) -> (r: Option<usize>)
        ensures
            r is None ==> forall|i: int|
                0 <= i < self.keys@.len() ==> (#[trigger] self.entries()[i]).0.key() != key.key(),
            r is Some ==> r->0 < self.keys@.len() && self.entries()[r->0 as int].0.key()
                == key.key(),
    {
        let mut i: usize = 0;
        while i < self.keys.len()
            invariant
                i <= self.keys@.len(),
                forall|j: int|
                    0 <= j < i ==> (#[trigger] self.entries()[j]).0.key() != key.key(),
            decreases self.keys@.len() - i,
        {
            if self.keys[i].same_key(key) {
                return Some(i);
            }
            i += 1;
        }
        None
    }

    /// The value of `key`.
    pub fn get(&self, key: &K) -> (r: Option<&V>)
        ensures
            r is Some == self@.dom().contains(key.key()),
            r is Some ==> *r->0 == self@[key.key()],
    {
        proof {
            use_type_invariant(self);
            map_of_entries(self.entries());
        }
        match self.find(key) {
            Some(i) => Some(&self.values[i]),
            None => None,
        }
    }

    /// The value of `key`, to be changed in place.
    pub fn get_mut(&mut self, key: &K) -> (r: Option<&mut V>)
        ensures
            match r {
                Some(v) => {
                    &&& old(self)@.dom().contains(key.key())
                    &&& *v == old(self)@[key.key()]
                    &&& final(self)@ == old(self)@.insert(key.key(), *final(v))
                },
                None => {
                    &&& !old(self)@.dom().contains(key.key())
                    &&& final(self)@ == old(self)@
                },
            },
    {
        proof {
            use_type_invariant(&*self);
            map_of_entries(self.entries());
        }
        match self.find(key) {
            Some(i) => {
                proof {
                    updated_values(self.keys@, self.values@, i as int);
                }
                Some(&mut self.values[i])
            },
            None => None,
        }
    }

    /// Gives `key` the value `value`; returns the value that it had.
    pub fn insert(&mut self, key: K, value: V) -> (r: Option<V>)
        ensures
            final(self)@ == old(self)@.insert(key.key(), value),
            r == if old(self)@.dom().contains(key.key()) {
                Some(old(self)@[key.key()])
            } else {
                None
            },
    {
        proof {
            use_type_invariant(&*self);
            map_of_entries(self.entries());
        }
        let at = self.find(&key);
        let mut all: TextMap<K, V> = TextMap::new();
        std::mem::swap(&mut all, self);
        proof {
            use_type_invariant(&all);
        }
        let TextMap { mut keys, mut values } = all;
        let ghost before = zipped(keys@, values@);
        match at {
            Some(i) => {
                proof {
                    updated_values(keys@, values@, i as int);
                }
                let mut gone: V = value;
                std::mem::swap(&mut gone, &mut values[i]);
                *self = TextMap { keys, values };
                Some(gone)
            },
            None => {
                keys.push(key);
                values.push(value);
                proof {
                    let after = zipped(keys@, values@);
                    assert(after.drop_last() =~= before);
                    assert(distinct_keys(after)) by {
                        assert forall|a: int, b: int| 0 <= a < b < after.len() implies (
                        #[trigger] after[a]).0.key() != (#[trigger] after[b]).0.key() by {
                            assert(after[a] == before[a]);
                            if b < before.len() {
                                assert(after[b] == before[b]);
                            }
                        }
                    }
                }
                *self = TextMap { keys, values };
                None
            },
        }
    }

    /// Takes `key` out; returns the value that it had.
    pub fn remove(&mut self, key: &K) -> (r: Option<V>)
        ensures
            final(self)@ == old(self)@.remove(key.key()),
            r == if old(self)@.dom().contains(key.key()) {
                Some(old(self)@[key.key()])
            } else {
                None
            },
    {
        proof {
            use_type_invariant(&*self);
            map_of_entries(self.entries());
        }
        let at = self.find(key);
        match at {
            Some(i) => {
                let mut all: TextMap<K, V> = TextMap::new();
                std::mem::swap(&mut all, self);
                proof {
                    use_type_invariant(&all);
                }
                let TextMap { mut keys, mut values } = all;
                let ghost before = zipped(keys@, values@);
                keys.remove(i);
                let gone = values.remove(i);
                proof {
                    removed_map(before, i as int);
                    assert(zipped(keys@, values@) =~= before.remove(i as int));
                }
                *self = TextMap { keys, values };
                Some(gone)
            },
            None => {
                proof {
                    assert(self@.remove(key.key()) =~= self@);
                }
                None
            },
        }
    }
}

/// Another value at a place changes the map at the key of that place alone.
proof fn updated_values<K: TextKey, V>(keys: Seq<K>, values: Seq<V>, i: int)
    requires
        keys.len() == values.len(),
        distinct_keys(zipped(keys, values)),
        0 <= i < keys.len(),
    ensures
        forall|v: V|
            {
                let after = zipped(keys, #[trigger] values.update(i, v));
                &&& distinct_keys(after)
                &&& map_of(after) == map_of(zipped(keys, values)).insert(keys[i].key(), v)
            },
{
    let s = zipped(keys, values);
    assert forall|v: V|
        {
            let after = zipped(keys, #[trigger] values.update(i, v));
            &&& distinct_keys(after)
            &&& map_of(after) == map_of(s).insert(keys[i].key(), v)
        } by {
        let after = zipped(keys, values.update(i, v));
        assert(after =~= s.update(i, (keys[i], v)));
        assert forall|a: int, b: int| 0 <= a < b < after.len() implies (#[trigger] after[a]).0.key()
            != (#[trigger] after[b]).0.key() by {
            assert(s[a].0.key() != s[b].0.key());
        }
        updated_map(s, i, (keys[i], v));
    }
}

/// Putting another value beside a key changes the map at that key alone.
proof fn updated_map<K: TextKey, V>(s: Seq<(K, V)>, i: int, put: (K, V))
    requires
        distinct_keys(s),
        0 <= i < s.len(),
        put.0.key() == s[i].0.key(),
    ensures
        map_of(s.update(i, put)) == map_of(s).insert(put.0.key(), put.1),
{
    let t = s.update(i, put);
    assert(distinct_keys(t)) by {
        assert forall|a: int, b: int| 0 <= a < b < t.len() implies (#[trigger] t[a]).0.key() != (
        #[trigger] t[b]).0.key() by {
            assert(s[a].0.key() != s[b].0.key());
        }
    }
    map_of_entries(s);
    map_of_entries(t);
    let m = map_of(s).insert(put.0.key(), put.1);
    assert forall|k: Seq<Seq<char>>| map_of(t).dom().contains(k) == m.dom().contains(k) by {
        if map_of(t).dom().contains(k) {
            let a = choose|a: int| 0 <= a < t.len() && (#[trigger] t[a]).0.key() == k;
            assert(s[a].0.key() == k);
        }
        if m.dom().contains(k) {
            if k == put.0.key() {
                assert(t[i].0.key() == k);
            } else {
                let a = choose|a: int| 0 <= a < s.len() && (#[trigger] s[a]).0.key() == k;
                assert(t[a].0.key() == k);
            }
        }
    }
    assert forall|k: Seq<Seq<char>>| map_of(t).dom().contains(k) implies map_of(t)[k] == m[k] by {
        let a = choose|a: int| 0 <= a < t.len() && (#[trigger] t[a]).0.key() == k;
        assert(map_of(t)[t[a].0.key()] == t[a].1);
        assert(map_of(s)[s[a].0.key()] == s[a].1);
        if a != i {
            assert(s[a].0.key() != s[i].0.key());
        }
    }
    assert(map_of(t) =~= m);
}

/// Taking an entry out of the list takes its key out of the map.
proof fn removed_map<K: TextKey, V>(s: Seq<(K, V)>, i: int)
    requires
        distinct_keys(s),
        0 <= i < s.len(),
    ensures
        distinct_keys(s.remove(i)),
        map_of(s.remove(i)) == map_of(s).remove(s[i].0.key()),
{
    let t = s.remove(i);
    assert(distinct_keys(t)) by {
        assert forall|a: int, b: int| 0 <= a < b < t.len() implies (#[trigger] t[a]).0.key() != (
        #[trigger] t[b]).0.key() by {
            let a2 = if a < i { a } else { a + 1 };
            let b2 = if b < i { b } else { b + 1 };
            assert(s[a2].0.key() != s[b2].0.key());
        }
    }
    map_of_entries(s);
    map_of_entries(t);
    let m = map_of(s).remove(s[i].0.key());
    assert forall|k: Seq<Seq<char>>| map_of(t).dom().contains(k) == m.dom().contains(k) by {
        if map_of(t).dom().contains(k) {
            let a = choose|a: int| 0 <= a < t.len() && (#[trigger] t[a]).0.key() == k;
            let a2 = if a < i { a } else { a + 1 };
            assert(s[a2].0.key() == k);
            assert(s[a2].0.key() != s[i].0.key()) by {
                if a2 < i {
                } else {
                    assert(s[i].0.key() != s[a2].0.key());
                }
            }
        }
        if m.dom().contains(k) {
            let a = choose|a: int| 0 <= a < s.len() && (#[trigger] s[a]).0.key() == k;
            let a2 = if a < i { a } else { a - 1 };
            assert(t[a2].0.key() == k);
        }
    }
    assert forall|k: Seq<Seq<char>>| map_of(t).dom().contains(k) implies map_of(t)[k] == m[k] by {
        let a = choose|a: int| 0 <= a < t.len() && (#[trigger] t[a]).0.key() == k;
        let a2 = if a < i { a } else { a + 1 };
        assert(map_of(t)[t[a].0.key()] == t[a].1);
        assert(map_of(s)[s[a2].0.key()] == s[a2].1);
    }
    assert(map_of(t) =~= m);
}

// ── Sorting ─────────────────────────────────────────────────────────────────

/// What can be put in order by a number.
pub trait Ranked: Sized {
    /// The number.
    spec fn rank(&self) -> nat;

    /// The number.
    fn rank_of(&self) -> (r: u128)
        ensures
            r == self.rank(),
    ;
}

/// How many elements at the front of `s` rank at least as high as `r`.
pub open spec fn place_of<T: Ranked>(s: Seq<T>, r: nat) -> nat
    decreases s.len(),
{
    if s.len() == 0 {
        0
    } else if s.first().rank() >= r {
        1 + place_of(s.drop_first(), r)
    } else {
        0
    }
}

/// `s` in descending order of rank, where equals keep the order that they have
/// in `s`.
pub open spec fn ranked_down<T: Ranked>(s: Seq<T>) -> Seq<T>
    decreases s.len(),
{
    if s.len() == 0 {
        s
    } else {
        let t = ranked_down(s.drop_last());
        t.insert(place_of(t, s.last().rank()) as int, s.last())
    }
}

/// Whether `s` is in descending order of rank.
pub open spec fn descending<T: Ranked>(s: Seq<T>) -> bool {
    forall|i: int, j: int|
        0 <= i <= j < s.len() ==> (#[trigger] s[i]).rank() >= (#[trigger] s[j]).rank()
}

/// The place is within the list; what stands before it ranks at least as high,
/// and what stands at it lower.
proof fn place_of_bounds<T: Ranked>(s: Seq<T>, r: nat)
    ensures
        place_of(s, r) <= s.len(),
        forall|i: int| 0 <= i < place_of(s, r) ==> (#[trigger] s[i]).rank() >= r,
        place_of(s, r) < s.len() ==> s[place_of(s, r) as int].rank() < r,
    decreases s.len(),
{
    if s.len() > 0 && s.first().rank() >= r {
        let t = s.drop_first();
        place_of_bounds(t, r);
        assert forall|i: int| 0 <= i < place_of(s, r) implies (#[trigger] s[i]).rank() >= r by {
            if i > 0 {
                assert(s[i] == t[i - 1]);
            }
        }
    }
}

/// A place is within the list or at its end.
pub proof fn place_within<T: Ranked>(s: Seq<T>, r: nat)
    ensures
        place_of(s, r) <= s.len(),
{
    place_of_bounds(s, r);
}

/// Sorting puts the list in descending order and neither loses nor adds an
/// element.
pub proof fn ranked_down_sorts<T: Ranked>(s: Seq<T>)
    ensures
        descending(ranked_down(s)),
        ranked_down(s).len() == s.len(),
        ranked_down(s).to_multiset() == s.to_multiset(),
    decreases s.len(),
{
    broadcast use vstd::seq_lib::group_to_multiset_ensures;

    if s.len() > 0 {
        let t = ranked_down(s.drop_last());
        let x = s.last();
        ranked_down_sorts(s.drop_last());
        place_of_bounds(t, x.rank());
        let p = place_of(t, x.rank()) as int;
        let u = t.insert(p, x);
        assert forall|i: int, j: int| 0 <= i <= j < u.len() implies (#[trigger] u[i]).rank() >= (
        #[trigger] u[j]).rank() by {
            let i2 = if i < p { i } else { i - 1 };
            let j2 = if j < p { j } else { j - 1 };
            if i != p {
                assert(u[i] == t[i2]);
            }
            if j != p {
                assert(u[j] == t[j2]);
            }
            if i == p && j > p {
                assert(t[p].rank() >= t[j2].rank());
            }
        }
        assert(s.drop_last().push(x) =~= s);
        assert(u.to_multiset() =~= t.to_multiset().insert(x));
    }
}

/// The list in descending order of rank; equals keep their order.
pub fn sort_down<T: Ranked>(v: Vec<T>) -> (r: Vec<T>)
    ensures
        r@ == ranked_down(v@),
{
    let mut out: Vec<T> = Vec::new();
    let ghost all = v@;
    proof {
        assert(all.take(0) =~= Seq::<T>::empty());
        assert(out@ =~= ranked_down(all.take(0)));
    }
    for x in it: v
        invariant
            it.seq() == all,
            out@ == ranked_down(all.take(it.index() as int)),
    {
        let ghost k = it.index() as int;
        let r: u128 = x.rank_of();
        let mut p: usize = 0;
        proof {
            assert(x == all[k]);
            assert(all.take(k + 1).drop_last() =~= all.take(k));
            assert(all.take(k + 1).last() == x);
            assert(out@.skip(0) =~= out@);
        }
        while p < out.len() && out[p].rank_of() >= r
            invariant
                r == x.rank(),
                p <= out@.len(),
                p + place_of(out@.skip(p as int), r as nat) == place_of(out@, r as nat),
            decreases out@.len() - p,
        {
            proof {
                assert(out@.skip(p as int).drop_first() =~= out@.skip(p + 1));
            }
            p += 1;
        }
        proof {
            if p < out@.len() {
                assert(out@.skip(p as int).first() == out@[p as int]);
            }
            assert(place_of(out@.skip(p as int), r as nat) == 0);
        }
        out.insert(p, x);
    }
    proof {
        assert(all.take(all.len() as int) =~= all);
    }
    out
}

proof fn filter_of_parts<T>(a: Seq<T>, b: Seq<T>, p: spec_fn(T) -> bool)
    ensures
        (a + b).filter(p) == a.filter(p) + b.filter(p),
    decreases b.len(),
{
    reveal(Seq::filter);
    if b.len() == 0 {
        assert(a + b =~= a);
        assert(a.filter(p) + b.filter(p) =~= a.filter(p));
    } else {
        assert((a + b).drop_last() =~= a + b.drop_last());
        assert((a + b).last() == b.last());
        filter_of_parts(a, b.drop_last(), p);
        assert((a + b).filter(p) =~= a.filter(p) + b.filter(p));
    }
}

proof fn filter_of_none<T>(s: Seq<T>, p: spec_fn(T) -> bool)
    requires
        forall|i: int| 0 <= i < s.len() ==> !p(#[trigger] s[i]),
    ensures
        s.filter(p) == Seq::<T>::empty(),
    decreases s.len(),
{
    reveal(Seq::filter);
    if s.len() > 0 {
        let d = s.drop_last();
        assert forall|i: int| 0 <= i < d.len() implies !p(#[trigger] d[i]) by {
            assert(d[i] == s[i]);
        }
        filter_of_none(d, p);
        assert(!p(s[s.len() - 1]));
    }
    assert(s.filter(p) =~= Seq::<T>::empty());
}

/// Sorting keeps the order of equals: those of one rank stand in it as they did
/// before.
pub proof fn ranking_is_stable<T: Ranked>(s: Seq<T>, r: nat)
    ensures
        ranked_down(s).filter(|x: T| x.rank() == r) == s.filter(|x: T| x.rank() == r),
    decreases s.len(),
{
    let p = |x: T| x.rank() == r;
    if s.len() > 0 {
        let d = s.drop_last();
        let x = s.last();
        ranking_is_stable(d, r);
        ranked_down_sorts(d);
        let t = ranked_down(d);
        place_of_bounds(t, x.rank());
        let k = place_of(t, x.rank()) as int;
        let a = t.take(k);
        let b = t.skip(k);
        let one = seq![x];
        assert(t =~= a + b);
        assert(t.insert(k, x) =~= a + one + b);
        assert(s =~= d + one);
        filter_of_parts(a, b, p);
        filter_of_parts(a + one, b, p);
        filter_of_parts(a, one, p);
        filter_of_parts(d, one, p);
        if x.rank() == r {
            assert forall|i: int| 0 <= i < b.len() implies !p(#[trigger] b[i]) by {
                assert(b[i] == t[k + i]);
                assert(t[k].rank() >= t[k + i].rank());
            }
            filter_of_none(b, p);
            assert(a.filter(p) + one.filter(p) + b.filter(p) =~= a.filter(p) + b.filter(p)
                + one.filter(p));
        } else {
            filter_of_none(one, p);
            assert(a.filter(p) + one.filter(p) + b.filter(p) =~= a.filter(p) + b.filter(p)
                + one.filter(p));
        }
    }
}

} // verus!
