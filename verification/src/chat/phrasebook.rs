//! The phrases that characters choose from.
//!
//! Lookup priority: archetype and register, then archetype, then generic.
//! Fragments (`{$pool}`) are expanded after the slots are filled.
use rand::rngs::StdRng;
use vstd::prelude::*;

use crate::chat::context;
use crate::chat::context::Slot;
use crate::chat::defaults::{
    FragmentRow, PhraseRow, DEFAULT_FRAGMENTS, DEFAULT_PHRASES,
};
use crate::chat::dice;
use crate::chat::personality::Archetype;
use crate::chat::state::EmotionalRegister;
use crate::maps::{TextKey, TextMap};
use crate::text;

verus! {

/// An event template entry. `archetype` and `register` are optional —
/// omitting both makes the entry the generic fallback.
pub struct EventEntry {
    pub kind: String,
    /// Archetype name (e.g. "ChaoticNarrator")
    pub archetype: Option<String>,
    /// Register name (e.g. "Elated")
    pub register: Option<String>,
    pub templates: Vec<String>,
}

/// A phrasebook file.
pub struct PhrasebookFile {
    pub fragments: TextMap<String, Vec<String>>,
    pub events: Vec<EventEntry>,
}

/// Key for the internal template map.
pub struct PoolKey {
    pub kind: String,
    pub archetype: Option<String>,
    pub register: Option<String>,
}

/// An optional text as one text: a text that is there is marked.
pub open spec fn marked(s: Option<Seq<char>>) -> Seq<char> {
    match s {
        Some(t) => seq!['='] + t,
        None => Seq::empty(),
    }
}

/// The key of a pool.
pub open spec fn pool_key(
    kind: Seq<char>,
    archetype: Option<Seq<char>>,
    register: Option<Seq<char>>,
) -> Seq<Seq<char>> {
    seq![kind, marked(archetype), marked(register)]
}

/// Pools with different names have different keys.
proof fn pool_keys_differ(
    k1: Seq<char>,
    a1: Option<Seq<char>>,
    r1: Option<Seq<char>>,
    k2: Seq<char>,
    a2: Option<Seq<char>>,
    r2: Option<Seq<char>>,
)
    ensures
        pool_key(k1, a1, r1) == pool_key(k2, a2, r2) <==> k1 == k2 && a1 == a2 && r1 == r2,
{
    let x = pool_key(k1, a1, r1);
    let y = pool_key(k2, a2, r2);
    assert(x[0] == k1 && x[1] == marked(a1) && x[2] == marked(r1));
    assert(y[0] == k2 && y[1] == marked(a2) && y[2] == marked(r2));
    marks_differ(a1, a2);
    marks_differ(r1, r2);
}

proof fn marks_differ(a: Option<Seq<char>>, b: Option<Seq<char>>)
    ensures
        marked(a) == marked(b) <==> a == b,
{
    if let (Some(s), Some(t)) = (a, b) {
        assert(marked(a).skip(1) =~= s);
        assert(marked(b).skip(1) =~= t);
    } else if a is Some {
        assert(marked(a)[0] == '=');
    } else if b is Some {
        assert(marked(b)[0] == '=');
    }
}

fn same_opt(a: &Option<String>, b: &Option<String>) -> (r: bool)
    ensures
        r == (text::opt_view(*a) == text::opt_view(*b)),
{
    match (a, b) {
        (Some(x), Some(y)) => text::same(x.as_str(), y.as_str()),
        (None, None) => true,
        _ => false,
    }
}

impl TextKey for PoolKey {
    open spec fn key(&self) -> Seq<Seq<char>> {
        pool_key(self.kind@, text::opt_view(self.archetype), text::opt_view(self.register))
    }

    fn same_key(&self, other: &Self) -> (r: bool) {
        proof {
            pool_keys_differ(
                self.kind@,
                text::opt_view(self.archetype),
                text::opt_view(self.register),
                other.kind@,
                text::opt_view(other.archetype),
                text::opt_view(other.register),
            );
        }
        text::same(self.kind.as_str(), other.kind.as_str()) && same_opt(
            &self.archetype,
            &other.archetype,
        ) && same_opt(&self.register, &other.register)
    }
}

/// The texts that a map holds for a key, none where it does not know the key.
pub open spec fn texts_at(m: Map<Seq<Seq<char>>, Vec<String>>, k: Seq<Seq<char>>) -> Seq<
    Seq<char>,
> {
    if m.dom().contains(k) {
        text::views(m[k]@)
    } else {
        Seq::empty()
    }
}

/// An optional name, which an empty text stands for the lack of.
pub open spec fn named(s: Seq<char>) -> Option<Seq<char>> {
    if s.len() == 0 {
        None
    } else {
        Some(s)
    }
}

/// The key of the pool that a row belongs to.
pub open spec fn row_key(row: PhraseRow) -> Seq<Seq<char>> {
    pool_key(row.0@, named(row.1@), named(row.2@))
}

/// The templates that a table holds for a pool.
pub open spec fn table_phrases(rows: Seq<PhraseRow>, k: Seq<Seq<char>>) -> Seq<Seq<char>>
    decreases rows.len(),
{
    if rows.len() == 0 {
        Seq::empty()
    } else if row_key(rows.last()) == k {
        table_phrases(rows.drop_last(), k).push(rows.last().3@)
    } else {
        table_phrases(rows.drop_last(), k)
    }
}

/// The words that a table holds for a fragment.
pub open spec fn table_fragments(rows: Seq<FragmentRow>, name: Seq<char>) -> Seq<Seq<char>>
    decreases rows.len(),
{
    if rows.len() == 0 {
        Seq::empty()
    } else if rows.last().0@ == name {
        table_fragments(rows.drop_last(), name).push(rows.last().1@)
    } else {
        table_fragments(rows.drop_last(), name)
    }
}

/// The key of a file's entry.
pub open spec fn entry_key(e: EventEntry) -> Seq<Seq<char>> {
    pool_key(e.kind@, text::opt_view(e.archetype), text::opt_view(e.register))
}

/// The templates that a file's entries give for a pool: those of the last entry
/// for it.
pub open spec fn file_phrases(events: Seq<EventEntry>, k: Seq<Seq<char>>) -> Seq<Seq<char>>
    decreases events.len(),
{
    if events.len() == 0 {
        Seq::empty()
    } else if entry_key(events.last()) == k {
        text::views(events.last().templates@)
    } else {
        file_phrases(events.drop_last(), k)
    }
}

pub struct PhraseDb {
    pools: TextMap<PoolKey, Vec<String>>,
    fragments: TextMap<String, Vec<String>>,
}

fn named_text(s: &str) -> (r: Option<String>)
    ensures
        text::opt_view(r) == named(s@),
{
    if s.is_empty() {
        None
    } else {
        Some(s.to_owned())
    }
}

impl PhraseDb {
    /// The templates of a pool.
    pub closed spec fn phrases(&self, k: Seq<Seq<char>>) -> Seq<Seq<char>> {
        texts_at(self.pools@, k)
    }

    /// The words that can stand for a fragment, where it is known.
    pub closed spec fn fragment(&self, name: Seq<char>) -> Option<Seq<Seq<char>>> {
        if self.fragments@.dom().contains(seq![name]) {
            Some(text::views(self.fragments@[seq![name]]@))
        } else {
            None
        }
    }

    /// Build from a loaded file.
    pub fn from_file(file: PhrasebookFile) -> (r: Self)
        ensures
            forall|k: Seq<Seq<char>>| #[trigger] r.phrases(k) == file_phrases(file.events@, k),
            forall|name: Seq<char>| #[trigger]
                r.fragment(name) == if file.fragments@.dom().contains(seq![name]) {
                    Some(text::views(file.fragments@[seq![name]]@))
                } else {
                    None
                },
    {
        let ghost all = file.events@;
        let mut pools: TextMap<PoolKey, Vec<String>> = TextMap::new();
        proof {
            assert(all.take(0) =~= Seq::<EventEntry>::empty());
        }
        for e in it: file.events
            invariant
                it.seq() == all,
                forall|k: Seq<Seq<char>>| #[trigger]
                    texts_at(pools@, k) == file_phrases(all.take(it.index() as int), k),
        {
            let ghost i = it.index() as int;
            let ghost before = pools@;
            proof {
                assert(e == all[i]);
                assert(all.take(i + 1).drop_last() =~= all.take(i));
                assert(all.take(i + 1).last() == e);
            }
            let key = PoolKey { kind: e.kind, archetype: e.archetype, register: e.register };
            pools.insert(key, e.templates);
            proof {
                assert forall|k: Seq<Seq<char>>| #[trigger]
                    texts_at(pools@, k) == file_phrases(all.take(i + 1), k) by {
                    assert(texts_at(before, k) == file_phrases(all.take(i), k));
                }
            }
        }
        proof {
            assert(all.take(all.len() as int) =~= all);
        }
        PhraseDb { pools, fragments: file.fragments }
    }

    /// Appends a template to a pool.
    fn add_phrase(&mut self, row: PhraseRow)
        ensures
            forall|k: Seq<Seq<char>>| #[trigger]
                final(self).phrases(k) == if k == row_key(row) {
                    old(self).phrases(k).push(row.3@)
                } else {
                    old(self).phrases(k)
                },
            final(self).fragments == old(self).fragments,
    {
        let key = PoolKey {
            kind: row.0.to_owned(),
            archetype: named_text(row.1),
            register: named_text(row.2),
        };
        let mut pool: Vec<String> = match self.pools.remove(&key) {
            Some(v) => v,
            None => Vec::new(),
        };
        let ghost before = pool@;
        pool.push(row.3.to_owned());
        proof {
            text::views_push(before, pool@.last());
            assert(text::views(before) =~= old(self).phrases(row_key(row)));
        }
        self.pools.insert(key, pool);
    }

    /// Appends words to a fragment.
    fn add_fragment(&mut self, row: FragmentRow)
        ensures
            forall|name: Seq<char>| #[trigger]
                final(self).fragment(name) == if name == row.0@ {
                    match old(self).fragment(name) {
                        Some(words) => Some(words.push(row.1@)),
                        None => Some(seq![row.1@]),
                    }
                } else {
                    old(self).fragment(name)
                },
            final(self).pools == old(self).pools,
    {
        let key: String = row.0.to_owned();
        let mut pool: Vec<String> = match self.fragments.remove(&key) {
            Some(v) => v,
            None => Vec::new(),
        };
        let ghost before = pool@;
        pool.push(row.1.to_owned());
        proof {
            text::views_push(before, pool@.last());
            if old(self).fragment(row.0@) is None {
                assert(text::views(pool@) =~= seq![row.1@]);
            }
        }
        self.fragments.insert(key, pool);
        proof {
            assert forall|name: Seq<char>| name != row.0@ implies #[trigger]
                self.fragment(name) == old(self).fragment(name) by {
                assert(seq![name][0] == name);
                assert(seq![row.0@][0] == row.0@);
            }
        }
    }

    /// Whether these are the phrases that are known without a file.
    pub open spec fn has_defaults(&self) -> bool {
        &&& forall|k: Seq<Seq<char>>| #[trigger]
            self.phrases(k) == table_phrases(DEFAULT_PHRASES@, k)
        &&& forall|name: Seq<char>| #[trigger]
            self.fragment(name) == {
                let words = table_fragments(DEFAULT_FRAGMENTS@, name);
                if words.len() == 0 {
                    None
                } else {
                    Some(words)
                }
            }
    }

    /// Build with embedded defaults only — usable without a file.
    pub fn with_defaults() -> (r: Self)
        ensures
            r.has_defaults(),
    {
        let mut db = PhraseDb { pools: TextMap::new(), fragments: TextMap::new() };
        db.load_fragments(&DEFAULT_FRAGMENTS);
        let ghost before = db;
        db.load_phrases(&DEFAULT_PHRASES);
        proof {
            assert forall|name: Seq<char>| #[trigger] db.fragment(name) == before.fragment(
                name,
            ) by {}
        }
        db
    }

    fn load_fragments(&mut self, rows: &[FragmentRow])
        requires
            forall|name: Seq<char>| #[trigger] old(self).fragment(name) is None,
        ensures
            forall|name: Seq<char>| #[trigger]
                final(self).fragment(name) == {
                    let words = table_fragments(rows@, name);
                    if words.len() == 0 {
                        None
                    } else {
                        Some(words)
                    }
                },
            final(self).pools == old(self).pools,
    {
        let mut i: usize = 0;
        while i < rows.len()
            invariant
                i <= rows@.len(),
                forall|name: Seq<char>| #[trigger]
                    self.fragment(name) == {
                        let words = table_fragments(rows@.take(i as int), name);
                        if words.len() == 0 {
                            None
                        } else {
                            Some(words)
                        }
                    },
                self.pools == old(self).pools,
            decreases rows@.len() - i,
        {
            proof {
                assert(rows@.take(i + 1).drop_last() =~= rows@.take(i as int));
                assert(rows@.take(i + 1).last() == rows@[i as int]);
            }
            let ghost before = *self;
            self.add_fragment(rows[i]);
            proof {
                assert forall|name: Seq<char>| #[trigger]
                    self.fragment(name) == {
                        let words = table_fragments(rows@.take(i + 1), name);
                        if words.len() == 0 {
                            None
                        } else {
                            Some(words)
                        }
                    } by {
                    let words = table_fragments(rows@.take(i as int), name);
                    assert(before.fragment(name) == if words.len() == 0 {
                        None
                    } else {
                        Some(words)
                    });
                    if words.len() == 0 {
                        assert(words.push(rows@[i as int].1@) =~= seq![rows@[i as int].1@]);
                    }
                }
            }
            i += 1;
        }
        proof {
            assert(rows@.take(i as int) =~= rows@);
        }
    }

    fn load_phrases(&mut self, rows: &[PhraseRow])
        requires
            forall|k: Seq<Seq<char>>| (#[trigger] old(self).phrases(k)).len() == 0,
        ensures
            forall|k: Seq<Seq<char>>| #[trigger]
                final(self).phrases(k) == table_phrases(rows@, k),
            final(self).fragments == old(self).fragments,
    {
        let mut i: usize = 0;
        proof {
            assert forall|k: Seq<Seq<char>>| #[trigger]
                self.phrases(k) == table_phrases(rows@.take(0), k) by {
                assert(self.phrases(k) =~= Seq::<Seq<char>>::empty());
            }
        }
        while i < rows.len()
            invariant
                i <= rows@.len(),
                forall|k: Seq<Seq<char>>| #[trigger]
                    self.phrases(k) == table_phrases(rows@.take(i as int), k),
                self.fragments == old(self).fragments,
            decreases rows@.len() - i,
        {
            proof {
                assert(rows@.take(i + 1).drop_last() =~= rows@.take(i as int));
                assert(rows@.take(i + 1).last() == rows@[i as int]);
            }
            let ghost before = *self;
            self.add_phrase(rows[i]);
            proof {
                assert forall|k: Seq<Seq<char>>| #[trigger]
                    self.phrases(k) == table_phrases(rows@.take(i + 1), k) by {
                    assert(before.phrases(k) == table_phrases(rows@.take(i as int), k));
                }
            }
            i += 1;
        }
        proof {
            assert(rows@.take(i as int) =~= rows@);
        }
    }

    // ── Lookup ──────────────────────────────────────────────────────────────

    /// The pool that a character chooses from: the first of the pools for the
    /// archetype in that register, for the archetype, and for everyone, that
    /// is not empty.
    pub open spec fn candidates(&self, kind: Seq<char>, arch: Seq<char>, reg: Seq<char>) -> Seq<
        Seq<char>,
    > {
        let exact = self.phrases(pool_key(kind, Some(arch), Some(reg)));
        let of_archetype = self.phrases(pool_key(kind, Some(arch), None));
        if exact.len() > 0 {
            exact
        } else if of_archetype.len() > 0 {
            of_archetype
        } else {
            self.phrases(pool_key(kind, None, None))
        }
    }

    fn pool(&self, kind: &str, arch: Option<String>, reg: Option<String>) -> (r: Option<
        &Vec<String>,
    >)
        ensures
            match r {
                Some(v) => {
                    &&& v@.len() > 0
                    &&& text::views(v@) == self.phrases(
                        pool_key(kind@, text::opt_view(arch), text::opt_view(reg)),
                    )
                },
                None => self.phrases(
                    pool_key(kind@, text::opt_view(arch), text::opt_view(reg)),
                ).len() == 0,
            },
    {
        let key = PoolKey { kind: kind.to_owned(), archetype: arch, register: reg };
        match self.pools.get(&key) {
            Some(v) => if v.len() == 0 {
                None
            } else {
                Some(v)
            },
            None => None,
        }
    }

    /// The templates that a character chooses from, if there are any.
    pub fn pool_for(
        &self,
        kind: &str,
        archetype: &Archetype,
        register: &EmotionalRegister,
    ) -> (r: Option<&Vec<String>>)
        ensures
            match r {
                Some(v) => v@.len() > 0 && text::views(v@) == self.candidates(
                    kind@,
                    archetype.spec_name(),
                    register.spec_name(),
                ),
                None => self.candidates(
                    kind@,
                    archetype.spec_name(),
                    register.spec_name(),
                ).len() == 0,
            },
    {
        let arch = archetype.name();
        let reg = register.name();
        if let Some(v) = self.pool(kind, Some(arch.to_owned()), Some(reg.to_owned())) {
            return Some(v);
        }
        if let Some(v) = self.pool(kind, Some(arch.to_owned()), None) {
            return Some(v);
        }
        self.pool(kind, None, None)
    }

    /// Select a random template for the given trigger kind, archetype, and
    /// emotional register.  Falls through to less-specific pools automatically.
    pub fn select(
        &self,
        kind: &str,
        archetype: &Archetype,
        register: &EmotionalRegister,
        rng: &mut StdRng,
    ) -> (r: Option<String>)
        ensures
            r is Some == (self.candidates(
                kind@,
                archetype.spec_name(),
                register.spec_name(),
            ).len() > 0),
            r matches Some(t) ==> self.candidates(
                kind@,
                archetype.spec_name(),
                register.spec_name(),
            ).contains(t@),
    {
        match self.pool_for(kind, archetype, register) {
            Some(v) => Some(pick(v, rng)),
            None => None,
        }
    }

    /// Select a random template from the generic "Generic" pool (idle/banter).
    pub fn select_generic(&self, rng: &mut StdRng) -> (r: Option<String>)
        ensures
            r is Some == (self.phrases(pool_key("Generic"@, None, None)).len() > 0),
            r matches Some(t) ==> self.phrases(pool_key("Generic"@, None, None)).contains(t@),
    {
        match self.pool("Generic", None, None) {
            Some(v) => Some(pick(v, rng)),
            None => None,
        }
    }

    // ── Filling and expansion ───────────────────────────────────────────────

    /// What a chunk contributes: its text, and what was picked for its fragment.
    /// A fragment that is not known stays as it is; one without words vanishes.
    pub open spec fn chunk_text(&self, c: (Seq<char>, Option<Seq<char>>), pick: nat) -> Seq<char> {
        match c.1 {
            None => c.0,
            Some(name) => c.0 + match self.fragment(name) {
                Some(words) => if words.len() == 0 {
                    Seq::empty()
                } else {
                    words[pick as int]
                },
                None => "{$"@ + name + "}"@,
            },
        }
    }

    /// The first `n` chunks put together, with what was picked for each.
    pub open spec fn assembled(
        &self,
        chunks: Seq<(Seq<char>, Option<Seq<char>>)>,
        picks: Seq<nat>,
        n: nat,
    ) -> Seq<char>
        decreases n,
    {
        if n == 0 {
            Seq::empty()
        } else {
            self.assembled(chunks, picks, (n - 1) as nat) + self.chunk_text(
                chunks[n - 1],
                picks[n - 1],
            )
        }
    }

    /// Whether there is a pick for each chunk, within the words of its fragment.
    pub open spec fn can_pick(
        &self,
        chunks: Seq<(Seq<char>, Option<Seq<char>>)>,
        picks: Seq<nat>,
    ) -> bool {
        &&& picks.len() == chunks.len()
        &&& forall|i: int|
            0 <= i < chunks.len() ==> self.within(#[trigger] chunks[i], picks[i])
    }

    /// Whether a pick is within the words of a chunk's fragment.
    pub open spec fn within(&self, c: (Seq<char>, Option<Seq<char>>), pick: nat) -> bool {
        match c.1 {
            None => true,
            Some(name) => match self.fragment(name) {
                Some(words) => words.len() == 0 || pick < words.len(),
                None => true,
            },
        }
    }

    /// The template with its fragments replaced by what was picked for each.
    pub fn expand_picked(&self, chunks: &Vec<Chunk>, picks: &Vec<usize>) -> (r: String)
        requires
            self.can_pick(chunk_views(chunks@), pick_views(picks@)),
        ensures
            r@ == self.assembled(chunk_views(chunks@), pick_views(picks@), chunks@.len()),
    {
        let ghost cs = chunk_views(chunks@);
        let ghost ps = pick_views(picks@);
        let mut out: String = String::new();
        proof {
            assert(out@ =~= self.assembled(cs, ps, 0));
        }
        let mut i: usize = 0;
        while i < chunks.len()
            invariant
                cs == chunk_views(chunks@),
                ps == pick_views(picks@),
                self.can_pick(cs, ps),
                i <= chunks@.len(),
                out@ == self.assembled(cs, ps, i as nat),
            decreases chunks@.len() - i,
        {
            let ghost before = out@;
            let c = &chunks[i];
            proof {
                assert(cs[i as int] == chunk_view(*c));
                assert(self.within(cs[i as int], ps[i as int]));
                assert(ps[i as int] == picks@[i as int]);
            }
            out.append(c.before.as_str());
            match &c.fragment {
                None => {},
                Some(name) => {
                    match self.fragments.get(name) {
                        Some(words) => {
                            proof {
                                assert(self.fragment(name@) == Some(text::views(words@)));
                                assert(text::views(words@).len() == words@.len());
                            }
                            if words.len() > 0 {
                                proof {
                                    assert(text::views(words@)[picks@[i as int] as int]
                                        == words@[picks@[i as int] as int]@);
                                }
                                out.append(words[picks[i]].as_str());
                            }
                        },
                        None => {
                            out.append("{$");
                            out.append(name.as_str());
                            out.append("}");
                        },
                    }
                },
            }
            proof {
                assert(out@ =~= before + self.chunk_text(cs[i as int], ps[i as int]));
            }
            i += 1;
        }
        out
    }

    /// Replaces each fragment of a template by words drawn from its pool.
    pub fn expand_fragments(&self, template: &str, rng: &mut StdRng) -> (r: String)
        ensures
            exists|picks: Seq<nat>| #[trigger]
                self.can_pick(chunks(template@), picks) && r@ == self.assembled(
                    chunks(template@),
                    picks,
                    chunks(template@).len(),
                ),
    {
        let parts = chunks_of(template);
        let ghost cs = chunk_views(parts@);
        let mut picks: Vec<usize> = Vec::new();
        let mut i: usize = 0;
        while i < parts.len()
            invariant
                cs == chunk_views(parts@),
                i <= parts@.len(),
                picks@.len() == i,
                forall|j: int|
                    0 <= j < i ==> self.within(#[trigger] cs[j], picks@[j] as nat),
            decreases parts@.len() - i,
        {
            let ghost before = picks@;
            let c = &parts[i];
            proof {
                assert(cs[i as int] == chunk_view(*c));
            }
            let p: usize = match &c.fragment {
                None => 0,
                Some(name) => match self.fragments.get(name) {
                    Some(words) => {
                        proof {
                            assert(self.fragment(name@) == Some(text::views(words@)));
                            assert(text::views(words@).len() == words@.len());
                        }
                        if words.len() > 0 {
                            dice::draw_index(rng, 0, words.len())
                        } else {
                            0
                        }
                    },
                    None => 0,
                },
            };
            picks.push(p);
            proof {
                assert forall|j: int| 0 <= j < i + 1 implies self.within(
                    #[trigger] cs[j],
                    picks@[j] as nat,
                ) by {
                    if j < i {
                        assert(picks@[j] == before[j]);
                    }
                }
            }
            i += 1;
        }
        proof {
            let ps = pick_views(picks@);
            assert forall|j: int| 0 <= j < cs.len() implies self.within(
                #[trigger] cs[j],
                ps[j],
            ) by {
                assert(ps[j] == picks@[j] as nat);
            }
            assert(self.can_pick(chunks(template@), ps));
        }
        self.expand_picked(&parts, &picks)
    }

    /// Fill named slots ({mob}, {player}, etc.) then expand fragments ({$pool}).
    pub fn render(&self, template: &str, slots: &Vec<Slot>, rng: &mut StdRng) -> (r: String)
        ensures
            self.renders(template@, context::slot_views(slots@), r@),
    {
        let filled = fill_slots(template, slots);
        self.expand_fragments(filled.as_str(), rng)
    }

    /// Whether `r` is the template with its slots filled and its fragments
    /// expanded in some way.
    pub open spec fn renders(
        &self,
        template: Seq<char>,
        slots: Seq<(Seq<char>, Seq<char>)>,
        r: Seq<char>,
    ) -> bool {
        let cs = chunks(filled(template, slots));
        exists|picks: Seq<nat>| #[trigger]
            self.can_pick(cs, picks) && r == self.assembled(cs, picks, cs.len())
    }
}

fn pick(v: &Vec<String>, rng: &mut StdRng) -> (r: String)
    requires
        v@.len() > 0,
    ensures
        text::views(v@).contains(r@),
{
    let i: usize = dice::draw_index(rng, 0, v.len());
    let r = v[i].clone();
    proof {
        assert(text::views(v@)[i as int] == r@);
    }
    r
}

// ── Templates ───────────────────────────────────────────────────────────────

/// A slot as a template names it.
pub open spec fn slot_mark(name: Seq<char>) -> Seq<char> {
    "{"@ + name + "}"@
}

/// The template with its slots filled, one after the other.
pub open spec fn filled(template: Seq<char>, slots: Seq<(Seq<char>, Seq<char>)>) -> Seq<char>
    decreases slots.len(),
{
    if slots.len() == 0 {
        template
    } else {
        text::replaced(
            filled(template, slots.drop_last()),
            slot_mark(slots.last().0),
            slots.last().1,
        )
    }
}

/// The template with its slots filled.
pub fn fill_slots(template: &str, slots: &Vec<Slot>) -> (r: String)
    ensures
        r@ == filled(template@, context::slot_views(slots@)),
{
    let ghost all = context::slot_views(slots@);
    let mut out: String = template.to_owned();
    let mut i: usize = 0;
    proof {
        assert(all.take(0) =~= Seq::<(Seq<char>, Seq<char>)>::empty());
    }
    while i < slots.len()
        invariant
            all == context::slot_views(slots@),
            i <= slots@.len(),
            out@ == filled(template@, all.take(i as int)),
        decreases slots@.len() - i,
    {
        let mut mark: String = "{".to_owned();
        mark.append(slots[i].name.as_str());
        mark.append("}");
        proof {
            reveal_strlit("{");
            assert(all.take(i + 1).drop_last() =~= all.take(i as int));
            assert(all.take(i + 1).last() == context::slot_view(slots@[i as int]));
            assert(mark@ =~= slot_mark(slots@[i as int].name@));
        }
        out = text::replace(out.as_str(), mark.as_str(), slots[i].value.as_str());
        i += 1;
    }
    proof {
        assert(all.take(i as int) =~= all);
    }
    out
}

/// Where `p` first stands in `s`.
pub open spec fn position(s: Seq<char>, p: Seq<char>) -> Option<int>
    decreases s.len(),
{
    if text::occurs_at(s, p, 0) {
        Some(0)
    } else if s.len() == 0 {
        None
    } else {
        match position(s.skip(1), p) {
            Some(i) => Some(i + 1),
            None => None,
        }
    }
}

/// A position is one where the text stands.
pub proof fn position_holds(s: Seq<char>, p: Seq<char>)
    ensures
        position(s, p) matches Some(i) ==> text::occurs_at(s, p, i),
    decreases s.len(),
{
    if !text::occurs_at(s, p, 0) && s.len() > 0 {
        position_holds(s.skip(1), p);
        if let Some(i) = position(s.skip(1), p) {
            assert(s.subrange(i + 1, i + 1 + p.len()) =~= s.skip(1).subrange(i, i + p.len()));
        }
    }
}

fn find_from(v: &Vec<char>, p: &Vec<char>, from: usize) -> (r: Option<usize>)
    requires
        from <= v@.len(),
    ensures
        match r {
            Some(i) => from <= i && i + p@.len() <= v@.len() && position(
                v@.skip(from as int),
                p@,
            ) == Some(i - from),
            None => position(v@.skip(from as int), p@) is None,
        },
{
    let n: usize = v.len();
    let mut i: usize = from;
    loop
        invariant
            n == v@.len(),
            from <= i <= n,
            match position(v@.skip(i as int), p@) {
                Some(j) => position(v@.skip(from as int), p@) == Some(j + (i - from)),
                None => position(v@.skip(from as int), p@) is None,
            },
        decreases n - i,
    {
        if text::matches_at(v, p, i) {
            proof {
                assert(v@.skip(i as int).subrange(0, p@.len() as int) =~= v@.subrange(
                    i as int,
                    i + p@.len(),
                ));
            }
            return Some(i);
        }
        proof {
            if text::occurs_at(v@.skip(i as int), p@, 0) {
                assert(v@.skip(i as int).subrange(0, p@.len() as int) =~= v@.subrange(
                    i as int,
                    i + p@.len(),
                ));
            }
        }
        if i == n {
            return None;
        }
        proof {
            assert(v@.skip(i as int).skip(1) =~= v@.skip(i + 1));
        }
        i += 1;
    }
}

/// A part of a template: a text, and the fragment that follows it, if one does.
pub struct Chunk {
    pub before: String,
    pub fragment: Option<String>,
}

/// The texts of a chunk.
pub open spec fn chunk_view(c: Chunk) -> (Seq<char>, Option<Seq<char>>) {
    (c.before@, text::opt_view(c.fragment))
}

/// The texts of chunks.
pub open spec fn chunk_views(v: Seq<Chunk>) -> Seq<(Seq<char>, Option<Seq<char>>)> {
    v.map_values(|c: Chunk| chunk_view(c))
}

/// Picks as numbers.
pub open spec fn pick_views(v: Seq<usize>) -> Seq<nat> {
    v.map_values(|p: usize| p as nat)
}

/// The chunks of a template: it is cut after each `{$name}`. Where an opening
/// mark is never closed, the last chunk is the text before that mark, followed
/// by the whole rest, which starts with that text.
pub open spec fn chunks(s: Seq<char>) -> Seq<(Seq<char>, Option<Seq<char>>)>
    decreases s.len(),
{
    match position(s, "{$"@) {
        None => seq![(s, None)],
        Some(i) => {
            let tail = s.skip(i + 2);
            match position(tail, "}"@) {
                None => seq![(s.take(i) + s, None)],
                Some(e) => if 0 <= i && i + 2 <= s.len() && 0 <= e < tail.len() {
                    seq![(s.take(i), Some(tail.take(e)))] + chunks(tail.skip(e + 1))
                } else {
                    seq![(s, None)]
                },
            }
        },
    }
}

/// The chunks of a template.
pub fn chunks_of(template: &str) -> (r: Vec<Chunk>)
    ensures
        chunk_views(r@) == chunks(template@),
{
    let v = text::chars_of(template);
    let open = text::chars_of("{$");
    let close = text::chars_of("}");
    let n: usize = v.len();
    let mut out: Vec<Chunk> = Vec::new();
    let mut at: usize = 0;
    proof {
        reveal_strlit("{$");
        reveal_strlit("}");
        assert(v@.skip(0) =~= template@);
        assert(chunk_views(out@) + chunks(v@.skip(0)) =~= chunks(template@));
    }
    loop
        invariant
            v@ == template@,
            n == v@.len(),
            open@ == "{$"@,
            close@ == "}"@,
            open@.len() == 2,
            close@.len() == 1,
            at <= n,
            chunk_views(out@) + chunks(v@.skip(at as int)) == chunks(template@),
        decreases n - at,
    {
        let ghost s = v@.skip(at as int);
        let ghost before = out@;
        let start = find_from(&v, &open, at);
        let end = match start {
            Some(i) => find_from(&v, &close, i + 2),
            None => None,
        };
        match (start, end) {
            (Some(i), Some(e)) => {
                proof {
                    position_holds(s, "{$"@);
                    assert(s.skip((i - at) + 2) =~= v@.skip(i + 2));
                    position_holds(v@.skip(i + 2), "}"@);
                    let tail = s.skip((i - at) + 2);
                    assert(tail.skip((e - (i + 2)) + 1) =~= v@.skip(e + 1));
                }
                let c = Chunk {
                    before: text::string_of_range(&v, at, i),
                    fragment: Some(text::string_of_range(&v, i + 2, e)),
                };
                proof {
                    assert(c.before@ =~= s.take(i - at));
                    assert(c.fragment->0@ =~= v@.skip(i + 2).take(e - (i + 2)));
                }
                out.push(c);
                proof {
                    assert(chunk_views(out@) =~= chunk_views(before).push(chunk_view(c)));
                    assert(chunk_views(before) + chunks(s) =~= chunk_views(out@) + chunks(
                        v@.skip(e + 1),
                    ));
                }
                at = e + 1;
            },
            (Some(i), None) => {
                proof {
                    position_holds(s, "{$"@);
                    assert(s.skip((i - at) + 2) =~= v@.skip(i + 2));
                    assert(chunks(s) == seq![(s.take(i - at) + s, None::<Seq<char>>)]);
                }
                let mut words: String = text::string_of_range(&v, at, i);
                let rest = text::string_of_range(&v, at, n);
                words.append(rest.as_str());
                let c = Chunk { before: words, fragment: None };
                proof {
                    assert(c.before@ =~= s.take(i - at) + s);
                }
                out.push(c);
                proof {
                    assert(chunk_views(out@) =~= chunk_views(before).push(chunk_view(c)));
                    assert(chunk_views(out@) =~= chunk_views(before) + chunks(s));
                }
                return out;
            },
            (None, _) => {
                proof {
                    assert(chunks(s) == seq![(s, None::<Seq<char>>)]);
                }
                let c = Chunk { before: text::string_of_range(&v, at, n), fragment: None };
                proof {
                    assert(c.before@ =~= s);
                }
                out.push(c);
                proof {
                    assert(chunk_views(out@) =~= chunk_views(before).push(chunk_view(c)));
                    assert(chunk_views(out@) =~= chunk_views(before) + chunks(s));
                }
                return out;
            },
        }
    }
}

// ── Laws ────────────────────────────────────────────────────────────────────

/// The source of chunks.
pub open spec fn source(c: Seq<(Seq<char>, Option<Seq<char>>)>) -> Seq<char>
    decreases c.len(),
{
    if c.len() == 0 {
        Seq::empty()
    } else {
        c[0].0 + (match c[0].1 {
            Some(name) => "{$"@ + name + "}"@,
            None => Seq::empty(),
        }) + source(c.skip(1))
    }
}

/// Whether an opening mark of a template is never closed.
pub open spec fn leaves_open(s: Seq<char>) -> bool
    decreases s.len(),
{
    match position(s, "{$"@) {
        None => false,
        Some(i) => {
            let tail = s.skip(i + 2);
            match position(tail, "}"@) {
                None => true,
                Some(e) => if 0 <= i && i + 2 <= s.len() && 0 <= e < tail.len() {
                    leaves_open(tail.skip(e + 1))
                } else {
                    true
                },
            }
        },
    }
}

/// Nothing of a template whose marks are closed is lost where it is cut: its
/// chunks, put side by side, are the template.
pub proof fn chunks_keep_the_template(s: Seq<char>)
    requires
        !leaves_open(s),
    ensures
        source(chunks(s)) == s,
    decreases s.len(),
{
    reveal_strlit("{$");
    reveal_strlit("}");
    let c = chunks(s);
    position_holds(s, "{$"@);
    if let Some(i) = position(s, "{$"@) {
        let tail = s.skip(i + 2);
        position_holds(tail, "}"@);
        if let Some(e) = position(tail, "}"@) {
            let rest = tail.skip(e + 1);
            chunks_keep_the_template(rest);
            assert(c.skip(1) =~= chunks(rest));
            assert(s.subrange(i, i + 2) == "{$"@);
            assert(tail.subrange(e, e + 1) == "}"@);
            assert(s =~= s.take(i) + s.subrange(i, i + 2) + tail);
            assert(tail =~= tail.take(e) + tail.subrange(e, e + 1) + rest);
            assert(source(c) =~= s);
            return;
        }
    }
    assert(c == seq![(s, None::<Seq<char>>)]);
    assert(c.skip(1) =~= Seq::empty());
    assert(source(c.skip(1)) =~= Seq::empty());
    assert(source(c) =~= s);
}

/// A template without fragments is said as it stands.
pub proof fn plain_templates_stay(db: PhraseDb, s: Seq<char>, picks: Seq<nat>)
    requires
        position(s, "{$"@) is None,
        db.can_pick(chunks(s), picks),
    ensures
        db.assembled(chunks(s), picks, chunks(s).len()) == s,
{
    let c = chunks(s);
    assert(c == seq![(s, None::<Seq<char>>)]);
    assert(db.assembled(c, picks, 0) =~= Seq::empty());
    assert(db.assembled(c, picks, 1) =~= s);
}

/// The more specific pool wins: phrases for an archetype in a register are
/// chosen over those for the archetype, and these over those for everyone.
pub proof fn specific_pools_win(db: PhraseDb, kind: Seq<char>, arch: Seq<char>, reg: Seq<char>)
    ensures
        db.phrases(pool_key(kind, Some(arch), Some(reg))).len() > 0 ==> db.candidates(
            kind,
            arch,
            reg,
        ) == db.phrases(pool_key(kind, Some(arch), Some(reg))),
        db.phrases(pool_key(kind, Some(arch), Some(reg))).len() == 0 && db.phrases(
            pool_key(kind, Some(arch), None),
        ).len() > 0 ==> db.candidates(kind, arch, reg) == db.phrases(
            pool_key(kind, Some(arch), None),
        ),
        db.phrases(pool_key(kind, None, None)).len() > 0 ==> db.candidates(
            kind,
            arch,
            reg,
        ).len() > 0,
{
}

/// A pool is told from another by its kind, its archetype and its register: none
/// of them can stand in for another.
pub proof fn pools_are_told_apart(
    kind: Seq<char>,
    arch: Option<Seq<char>>,
    reg: Option<Seq<char>>,
    kind2: Seq<char>,
    arch2: Option<Seq<char>>,
    reg2: Option<Seq<char>>,
)
    ensures
        pool_key(kind, arch, reg) == pool_key(kind2, arch2, reg2) <==> kind == kind2 && arch
            == arch2 && reg == reg2,
{
    let a = pool_key(kind, arch, reg);
    let b = pool_key(kind2, arch2, reg2);
    assert(a[0] == kind && a[1] == marked(arch) && a[2] == marked(reg));
    assert(b[0] == kind2 && b[1] == marked(arch2) && b[2] == marked(reg2));
    marks_are_faithful(arch, arch2);
    marks_are_faithful(reg, reg2);
}

proof fn marks_are_faithful(a: Option<Seq<char>>, b: Option<Seq<char>>)
    ensures
        marked(a) == marked(b) ==> a == b,
{
    if marked(a) == marked(b) {
        if a is Some {
            assert(marked(a).len() > 0);
            assert(marked(a).skip(1) =~= a->0);
        }
        if b is Some {
            assert(marked(b).len() > 0);
            assert(marked(b).skip(1) =~= b->0);
        }
    }
}

/// In a file the last entry for a pool counts, and entries for other pools leave it
/// as it was.
pub proof fn later_entries_replace_earlier_ones(
    events: Seq<EventEntry>,
    e: EventEntry,
    k: Seq<Seq<char>>,
)
    ensures
        file_phrases(events.push(e), entry_key(e)) == text::views(e.templates@),
        k != entry_key(e) ==> file_phrases(events.push(e), k) == file_phrases(events, k),
{
    assert(events.push(e).drop_last() =~= events);
}

/// A fragment in a template is cut out where it stands: what precedes it is kept,
/// and so is what follows.
pub proof fn fragments_stand_where_they_are_named(a: Seq<char>, name: Seq<char>, b: Seq<char>)
    requires
        !text::has_char(a, '{'),
        !text::has_char(name, '}'),
    ensures
        chunks(a + seq!['{', '$'] + name + seq!['}'] + b) == seq![(a, Some(name))] + chunks(b),
{
    reveal_strlit("{$");
    reveal_strlit("}");
    let open = "{$"@;
    let close = "}"@;
    assert(open =~= seq!['{', '$']);
    assert(close =~= seq!['}']);
    let s = a + seq!['{', '$'] + name + seq!['}'] + b;
    let n = a.len() as int;
    assert(s.subrange(n, n + 2) =~= open);
    assert forall|j: int| 0 <= j < n implies !#[trigger] text::occurs_at(s, open, j) by {
        if text::occurs_at(s, open, j) {
            assert(s.subrange(j, j + 2)[0] == '{');
            assert(s[j] == a[j]);
        }
    }
    position_is_first(s, open, n);
    let tail = s.skip(n + 2);
    let m = name.len() as int;
    assert(tail =~= name + seq!['}'] + b);
    assert(tail.subrange(m, m + 1) =~= close);
    assert forall|j: int| 0 <= j < m implies !#[trigger] text::occurs_at(tail, close, j) by {
        if text::occurs_at(tail, close, j) {
            assert(tail.subrange(j, j + 1)[0] == '}');
            assert(tail[j] == name[j]);
        }
    }
    position_is_first(tail, close, m);
    assert(s.take(n) =~= a);
    assert(tail.take(m) =~= name);
    assert(tail.skip(m + 1) =~= b);
}

/// The position of a text in another is its first occurrence.
pub proof fn position_is_first(s: Seq<char>, p: Seq<char>, i: int)
    requires
        p.len() > 0,
        text::occurs_at(s, p, i),
        forall|j: int| 0 <= j < i ==> !#[trigger] text::occurs_at(s, p, j),
    ensures
        position(s, p) == Some(i),
    decreases s.len(),
{
    if i > 0 {
        let t = s.skip(1);
        assert(!text::occurs_at(s, p, 0));
        assert forall|j: int| 0 <= j <= i - 1 implies text::occurs_at(t, p, j)
            == #[trigger] text::occurs_at(s, p, j + 1) by {
            if j + 1 + p.len() <= s.len() {
                assert(t.subrange(j, j + p.len()) =~= s.subrange(j + 1, j + 1 + p.len()));
            }
        }
        assert(text::occurs_at(s, p, (i - 1) + 1));
        assert(text::occurs_at(t, p, i - 1));
        assert forall|j: int| 0 <= j < i - 1 implies !#[trigger] text::occurs_at(t, p, j) by {
            assert(!text::occurs_at(s, p, j + 1));
        }
        position_is_first(t, p, i - 1);
    }
}

} // verus!
