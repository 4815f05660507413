//! Chat that a language model generates: what the model is told, and what is
//! made of its answer.
use vstd::prelude::*;

use crate::chat::context;
use crate::chat::context::Slot;
use crate::chat::personality::Archetype;
use crate::chat::state::EmotionalRegister;
use crate::chat::tokenizer;
use crate::chat::tokenizer::Tokenizer;
use crate::maps::TextMap;
use crate::text;

verus! {

// ── The model's description ─────────────────────────────────────────────────

/// What a model's description holds, as far as it is there and of the right
/// type.
pub struct RawMeta {
    pub base_vocab: Option<u64>,
    /// The names of the control tokens, each with its number where it is one.
    pub control_tokens: Option<Vec<(String, Option<i64>)>>,
    pub vocab_size: Option<u64>,
    pub max_len: Option<u64>,
    pub pad_id: Option<i64>,
    pub bos_id: Option<i64>,
    pub eos_id: Option<i64>,
}

/// What a model's description holds.
pub struct MetaView {
    pub base_vocab: Option<u64>,
    pub control_tokens: Option<Seq<(Seq<char>, Option<i64>)>>,
    pub vocab_size: Option<u64>,
    pub max_len: Option<u64>,
    pub pad_id: Option<i64>,
    pub bos_id: Option<i64>,
    pub eos_id: Option<i64>,
}

/// The names and numbers of control tokens.
pub open spec fn token_views(v: Seq<(String, Option<i64>)>) -> Seq<(Seq<char>, Option<i64>)> {
    v.map_values(|t: (String, Option<i64>)| (t.0@, t.1))
}

impl View for RawMeta {
    type V = MetaView;

    open spec fn view(&self) -> MetaView {
        MetaView {
            base_vocab: self.base_vocab,
            control_tokens: match self.control_tokens {
                Some(v) => Some(token_views(v@)),
                None => None,
            },
            vocab_size: self.vocab_size,
            max_len: self.max_len,
            pad_id: self.pad_id,
            bos_id: self.bos_id,
            eos_id: self.eos_id,
        }
    }
}

/// What `serde_json` reads in a text: the fields of a model's description, or
/// the words in which it refuses the text.
pub uninterp spec fn meta_document(text: Seq<char>) -> Result<MetaView, Seq<char>>;

/// What was read, or why nothing was.
pub open spec fn reading(r: Result<RawMeta, String>) -> Result<MetaView, Seq<char>> {
    match r {
        Ok(m) => Ok(m@),
        Err(e) => Err(e@),
    }
}

/// `serde_json::from_str` into a `Value`, of which the fields are taken by
/// `Value::as_u64`, `Value::as_i64` and `Value::as_object`. What comes out depends
/// on the text alone.
#[verifier::external_body]
fn read_meta(text: &str) -> (r: Result<RawMeta, String>)
    ensures
        reading(r) == meta_document(text@),
{
    match serde_json::from_str::<serde_json::Value>(text) {
        Ok(v) => Ok(RawMeta {
            base_vocab: v["base_vocab"].as_u64(),
            control_tokens: v["control_tokens"].as_object().map(|o|
                o.iter().map(|(k, x)| (k.clone(), x.as_i64())).collect()),
            vocab_size: v["vocab_size"].as_u64(),
            max_len: v["max_len"].as_u64(),
            pad_id: v["pad_id"].as_i64(),
            bos_id: v["bos_id"].as_i64(),
            eos_id: v["eos_id"].as_i64(),
        }),
        Err(e) => Err(e.to_string()),
    }
}

/// What is known of a model.
pub struct ModelMeta {
    pub vocab_size: usize,
    /// How many ids belong to the base vocabulary.
    pub base_vocab: usize,
    /// Names of the control tokens.
    pub control_tokens: Vec<String>,
    pub max_len: usize,
    pub pad_id: i64,
    pub bos_id: i64,
    pub eos_id: i64,
    /// `control_token_name -> id`
    pub ctrl: TextMap<String, i64>,
}

/// The numbers of the control tokens that have one.
pub open spec fn token_numbers(tokens: Seq<(Seq<char>, Option<i64>)>) -> Map<Seq<Seq<char>>, i64>
    decreases tokens.len(),
{
    if tokens.len() == 0 {
        Map::empty()
    } else {
        match tokens.last().1 {
            Some(id) => token_numbers(tokens.drop_last()).insert(seq![tokens.last().0], id),
            None => token_numbers(tokens.drop_last()),
        }
    }
}

/// The names of control tokens.
pub open spec fn token_names(tokens: Seq<(Seq<char>, Option<i64>)>) -> Seq<Seq<char>> {
    tokens.map_values(|t: (Seq<char>, Option<i64>)| t.0)
}

/// The first field that a description lacks.
pub open spec fn missing(m: MetaView) -> Option<Seq<char>> {
    if m.base_vocab is None {
        Some("missing base_vocab"@)
    } else if m.control_tokens is None {
        Some("missing control_tokens"@)
    } else if m.vocab_size is None {
        Some("missing vocab_size"@)
    } else if m.max_len is None {
        Some("missing max_len"@)
    } else if m.pad_id is None {
        Some("missing pad_id"@)
    } else if m.bos_id is None {
        Some("missing bos_id"@)
    } else if m.eos_id is None {
        Some("missing eos_id"@)
    } else {
        None
    }
}

/// Whether a description of a model is what its fields say.
pub open spec fn describes(m: MetaView, r: Result<ModelMeta, String>) -> bool {
    match r {
        Ok(meta) => {
            &&& missing(m) is None
            &&& meta.base_vocab == m.base_vocab->0 as usize
            &&& text::views(meta.control_tokens@) == token_names(m.control_tokens->0)
            &&& meta.ctrl@ == token_numbers(m.control_tokens->0)
            &&& meta.vocab_size == m.vocab_size->0 as usize
            &&& meta.max_len == m.max_len->0 as usize
            &&& meta.pad_id == m.pad_id->0
            &&& meta.bos_id == m.bos_id->0
            &&& meta.eos_id == m.eos_id->0
        },
        Err(e) => missing(m) == Some(e@),
    }
}

impl ModelMeta {
    /// The description of a model, from the fields that were read.
    pub fn from_raw(raw: RawMeta) -> (r: Result<ModelMeta, String>)
        ensures
            describes(raw@, r),
    {
        let base_vocab: u64 = match raw.base_vocab {
            Some(n) => n,
            None => return Err("missing base_vocab".to_owned()),
        };
        let tokens = match raw.control_tokens {
            Some(v) => v,
            None => return Err("missing control_tokens".to_owned()),
        };
        let ghost views = token_views(tokens@);
        let mut ctrl: TextMap<String, i64> = TextMap::new();
        let mut names: Vec<String> = Vec::new();
        let mut i: usize = 0;
        proof {
            assert(views.take(0) =~= Seq::<(Seq<char>, Option<i64>)>::empty());
            assert(text::views(names@) =~= token_names(views.take(0)));
        }
        while i < tokens.len()
            invariant
                views == token_views(tokens@),
                i <= tokens@.len(),
                ctrl@ == token_numbers(views.take(i as int)),
                text::views(names@) == token_names(views.take(i as int)),
            decreases tokens@.len() - i,
        {
            let ghost before = names@;
            proof {
                assert(views.take(i + 1).drop_last() =~= views.take(i as int));
                assert(views.take(i + 1).last() == (tokens@[i as int].0@, tokens@[i as int].1));
            }
            let t = &tokens[i];
            if let Some(id) = t.1 {
                ctrl.insert(t.0.clone(), id);
            }
            names.push(t.0.clone());
            proof {
                text::views_push(before, names@.last());
                assert(token_names(views.take(i + 1)) =~= token_names(views.take(i as int)).push(
                    t.0@,
                ));
            }
            i += 1;
        }
        proof {
            assert(views.take(i as int) =~= views);
        }
        let vocab_size: u64 = match raw.vocab_size {
            Some(n) => n,
            None => return Err("missing vocab_size".to_owned()),
        };
        let max_len: u64 = match raw.max_len {
            Some(n) => n,
            None => return Err("missing max_len".to_owned()),
        };
        let pad_id: i64 = match raw.pad_id {
            Some(n) => n,
            None => return Err("missing pad_id".to_owned()),
        };
        let bos_id: i64 = match raw.bos_id {
            Some(n) => n,
            None => return Err("missing bos_id".to_owned()),
        };
        let eos_id: i64 = match raw.eos_id {
            Some(n) => n,
            None => return Err("missing eos_id".to_owned()),
        };
        Ok(
            ModelMeta {
                vocab_size: #[verifier::truncate] (vocab_size as usize),
                base_vocab: #[verifier::truncate] (base_vocab as usize),
                control_tokens: names,
                max_len: #[verifier::truncate] (max_len as usize),
                pad_id,
                bos_id,
                eos_id,
                ctrl,
            },
        )
    }

    /// The description of a model, from a text in JSON.
    pub fn from_json(text: &str) -> (r: Result<ModelMeta, String>)
        ensures
            match meta_document(text@) {
                Ok(m) => describes(m, r),
                Err(e) => r matches Err(s) && s@ == e,
            },
    {
        match read_meta(text) {
            Ok(raw) => ModelMeta::from_raw(raw),
            Err(e) => Err(e),
        }
    }
}

// ── The prefix ──────────────────────────────────────────────────────────────

/// The tag of an archetype.
pub open spec fn archetype_text(arch: Archetype) -> Seq<char> {
    match arch {
        Archetype::QuietAnchor => "QuietAnchor"@,
        Archetype::ChaoticNarrator => "ChaoticNarrator"@,
        Archetype::RaidLeader => "RaidLeader"@,
        Archetype::ReactiveObserver => "ReactiveObserver"@,
        Archetype::TacticalFocused => "TacticalFocused"@,
        Archetype::Custom => "Generic"@,
    }
}

/// The tag of an archetype.
pub fn archetype_tag(arch: &Archetype) -> (r: &'static str)
    ensures
        r@ == archetype_text(*arch),
{
    match arch {
        Archetype::QuietAnchor => "QuietAnchor",
        Archetype::ChaoticNarrator => "ChaoticNarrator",
        Archetype::RaidLeader => "RaidLeader",
        Archetype::ReactiveObserver => "ReactiveObserver",
        Archetype::TacticalFocused => "TacticalFocused",
        Archetype::Custom => "Generic",
    }
}

/// The tag of a register.
pub fn register_tag(reg: &EmotionalRegister) -> (r: &'static str)
    ensures
        r@ == reg.spec_name(),
{
    reg.name()
}

/// Whether a trait of a character is high, low, or neither.
#[derive(Debug, Clone, Copy, PartialEq, Eq, Structural)]
pub enum Level {
    High,
    Middle,
    Low,
}

/// The levels of the traits that a model is told of.
#[derive(Debug, Clone, Copy, PartialEq, Eq, Structural)]
pub struct Levels {
    pub verbosity: Level,
    pub humor: Level,
    pub patience: Level,
}

/// The tag of a level; none where it is neither high nor low.
pub open spec fn level_tags(l: Level, high: Seq<char>, low: Seq<char>) -> Seq<Seq<char>> {
    match l {
        Level::High => seq![high],
        Level::Low => seq![low],
        Level::Middle => Seq::empty(),
    }
}

/// A name in brackets.
pub open spec fn bracketed(s: Seq<char>) -> Seq<char> {
    "["@ + s + "]"@
}

/// The tags that a prefix begins with.
pub open spec fn head_tags(
    arch: Archetype,
    reg: EmotionalRegister,
    kind: Seq<char>,
    levels: Levels,
) -> Seq<Seq<char>> {
    seq![
        "[ARCH]"@,
        bracketed(archetype_text(arch)),
        "[REG]"@,
        bracketed(reg.spec_name()),
        "[TRIG]"@,
        bracketed(text::replaced(kind, " "@, "_"@)),
    ] + level_tags(levels.verbosity, "[VERBOSE]"@, "[TERSE]"@) + level_tags(
        levels.humor,
        "[HUMOROUS]"@,
        "[SERIOUS]"@,
    ) + level_tags(levels.patience, "[PATIENT]"@, "[IMPATIENT]"@)
}

/// The ids of the tags that a model knows, in order.
pub open spec fn tag_ids(ctrl: Map<Seq<Seq<char>>, i64>, tags: Seq<Seq<char>>) -> Seq<i64>
    decreases tags.len(),
{
    if tags.len() == 0 {
        Seq::empty()
    } else if ctrl.dom().contains(seq![tags.last()]) {
        tag_ids(ctrl, tags.drop_last()).push(ctrl[seq![tags.last()]])
    } else {
        tag_ids(ctrl, tags.drop_last())
    }
}

/// Ids as a model takes them.
pub open spec fn as_ids(v: Seq<usize>) -> Seq<i64> {
    v.map_values(|x: usize| x as i64)
}

/// The prefix that a model continues.
pub open spec fn prefix(
    ctrl: Map<Seq<Seq<char>>, i64>,
    tags: Seq<Seq<char>>,
    slot_ids: Option<Seq<usize>>,
) -> Seq<i64> {
    tag_ids(ctrl, tags) + (match slot_ids {
        Some(v) => as_ids(v),
        None => Seq::empty(),
    }) + tag_ids(ctrl, seq!["[RESPONSE]"@])
}

fn push_tag(out: &mut Vec<i64>, ctrl: &TextMap<String, i64>, tag: String, tags: Ghost<Seq<Seq<char>>>)
    requires
        old(out)@ == tag_ids(ctrl@, tags@),
    ensures
        final(out)@ == tag_ids(ctrl@, tags@.push(tag@)),
{
    proof {
        assert(tags@.push(tag@).drop_last() =~= tags@);
    }
    if let Some(id) = ctrl.get(&tag) {
        out.push(*id);
    }
}

fn in_brackets(s: &str) -> (r: String)
    ensures
        r@ == bracketed(s@),
{
    let mut out: String = "[".to_owned();
    out.append(s);
    out.append("]");
    out
}

fn push_level(
    out: &mut Vec<i64>,
    ctrl: &TextMap<String, i64>,
    level: Level,
    high: &str,
    low: &str,
    tags: Ghost<Seq<Seq<char>>>,
)
    requires
        old(out)@ == tag_ids(ctrl@, tags@),
    ensures
        final(out)@ == tag_ids(ctrl@, tags@ + level_tags(level, high@, low@)),
{
    match level {
        Level::High => {
            push_tag(out, ctrl, high.to_owned(), tags);
            proof {
                assert(tags@ + level_tags(level, high@, low@) =~= tags@.push(high@));
            }
        },
        Level::Low => {
            push_tag(out, ctrl, low.to_owned(), tags);
            proof {
                assert(tags@ + level_tags(level, high@, low@) =~= tags@.push(low@));
            }
        },
        Level::Middle => {
            proof {
                assert(tags@ + level_tags(level, high@, low@) =~= tags@);
            }
        },
    }
}

/// The prefix that a model continues: the archetype, the register and the
/// trigger; what stands out in the character; the ids of the most useful slot;
/// and the mark after which the answer stands. Tags that the model does not
/// know are left out.
pub fn prefix_ids(
    meta: &ModelMeta,
    arch: &Archetype,
    reg: &EmotionalRegister,
    kind: &str,
    levels: Levels,
    slot_ids: &Option<Vec<usize>>,
) -> (r: Vec<i64>)
    ensures
        r@ == prefix(
            meta.ctrl@,
            head_tags(*arch, *reg, kind@, levels),
            match *slot_ids {
                Some(v) => Some(v@),
                None => None,
            },
        ),
{
    proof {
        reveal_strlit(" ");
    }
    let ctrl = &meta.ctrl;
    let mut ids: Vec<i64> = Vec::new();
    let trig = text::replace(kind, " ", "_");
    let ghost t0: Seq<Seq<char>> = Seq::empty();
    push_tag(&mut ids, ctrl, "[ARCH]".to_owned(), Ghost(t0));
    let ghost t1 = t0.push("[ARCH]"@);
    push_tag(&mut ids, ctrl, in_brackets(archetype_tag(arch)), Ghost(t1));
    let ghost t2 = t1.push(bracketed(archetype_text(*arch)));
    push_tag(&mut ids, ctrl, "[REG]".to_owned(), Ghost(t2));
    let ghost t3 = t2.push("[REG]"@);
    push_tag(&mut ids, ctrl, in_brackets(register_tag(reg)), Ghost(t3));
    let ghost t4 = t3.push(bracketed(reg.spec_name()));
    push_tag(&mut ids, ctrl, "[TRIG]".to_owned(), Ghost(t4));
    let ghost t5 = t4.push("[TRIG]"@);
    push_tag(&mut ids, ctrl, in_brackets(trig.as_str()), Ghost(t5));
    let ghost t6 = t5.push(bracketed(text::replaced(kind@, " "@, "_"@)));
    push_level(&mut ids, ctrl, levels.verbosity, "[VERBOSE]", "[TERSE]", Ghost(t6));
    let ghost t7 = t6 + level_tags(levels.verbosity, "[VERBOSE]"@, "[TERSE]"@);
    push_level(&mut ids, ctrl, levels.humor, "[HUMOROUS]", "[SERIOUS]", Ghost(t7));
    let ghost t8 = t7 + level_tags(levels.humor, "[HUMOROUS]"@, "[SERIOUS]"@);
    push_level(&mut ids, ctrl, levels.patience, "[PATIENT]", "[IMPATIENT]", Ghost(t8));
    let ghost tags = head_tags(*arch, *reg, kind@, levels);
    let ghost head = ids@;
    proof {
        assert(t6 =~= seq![
            "[ARCH]"@,
            bracketed(archetype_text(*arch)),
            "[REG]"@,
            bracketed(reg.spec_name()),
            "[TRIG]"@,
            bracketed(text::replaced(kind@, " "@, "_"@)),
        ]);
        assert(t8 + level_tags(levels.patience, "[PATIENT]"@, "[IMPATIENT]"@) =~= tags);
        assert(head == tag_ids(meta.ctrl@, tags));
    }
    if let Some(v) = slot_ids {
        let mut i: usize = 0;
        proof {
            assert(head + as_ids(v@.take(0)) =~= head);
        }
        while i < v.len()
            invariant
                i <= v@.len(),
                ids@ == head + as_ids(v@.take(i as int)),
            decreases v@.len() - i,
        {
            proof {
                assert(as_ids(v@.take(i + 1)) =~= as_ids(v@.take(i as int)).push(
                    v@[i as int] as i64,
                ));
            }
            ids.push(#[verifier::truncate] (v[i] as i64));
            proof {
                assert(ids@ =~= head + as_ids(v@.take(i + 1)));
            }
            i += 1;
        }
        proof {
            assert(v@.take(i as int) =~= v@);
        }
    }
    let ghost mid = ids@;
    let response: String = "[RESPONSE]".to_owned();
    proof {
        let one: Seq<Seq<char>> = seq!["[RESPONSE]"@];
        assert(one.drop_last() =~= Seq::<Seq<char>>::empty());
        assert(tag_ids(ctrl@, one.drop_last()) =~= Seq::<i64>::empty());
    }
    if let Some(id) = ctrl.get(&response) {
        ids.push(*id);
    }
    proof {
        assert(ids@ =~= mid + tag_ids(ctrl@, seq!["[RESPONSE]"@]));
        assert(ids@ =~= prefix(
            meta.ctrl@,
            tags,
            match *slot_ids {
                Some(v) => Some(v@),
                None => None,
            },
        ));
    }
    ids
}

/// The value of the first slot of a name.
pub open spec fn slot_value(slots: Seq<(Seq<char>, Seq<char>)>, name: Seq<char>) -> Option<
    Seq<char>,
>
    decreases slots.len(),
{
    if slots.len() == 0 {
        None
    } else if slots[0].0 == name {
        Some(slots[0].1)
    } else {
        slot_value(slots.skip(1), name)
    }
}

/// The names of the slots that a model is told of, the most useful first.
pub const SLOT_ORDER: [&'static str; 8] = [
    "mob",
    "player",
    "healer",
    "target",
    "spell",
    "ability",
    "caster",
    "src",
];

/// The value of the first of some names that has one.
pub open spec fn first_value(
    slots: Seq<(Seq<char>, Seq<char>)>,
    names: Seq<&'static str>,
) -> Option<Seq<char>>
    decreases names.len(),
{
    if names.len() == 0 {
        None
    } else {
        match slot_value(slots, names[0]@) {
            Some(v) => Some(v),
            None => first_value(slots, names.skip(1)),
        }
    }
}

fn find_slot<'a>(slots: &'a Vec<Slot>, name: &str) -> (r: Option<&'a str>)
    ensures
        match r {
            Some(v) => slot_value(context::slot_views(slots@), name@) == Some(v@),
            None => slot_value(context::slot_views(slots@), name@) is None,
        },
{
    let ghost views = context::slot_views(slots@);
    let mut i: usize = 0;
    proof {
        assert(views.skip(0) =~= views);
    }
    while i < slots.len()
        invariant
            views == context::slot_views(slots@),
            i <= slots@.len(),
            slot_value(views.skip(i as int), name@) == slot_value(views, name@),
        decreases slots@.len() - i,
    {
        proof {
            assert(views.skip(i as int)[0] == context::slot_view(slots@[i as int]));
            assert(views.skip(i as int).skip(1) =~= views.skip(i + 1));
        }
        if text::same(slots[i].name.as_str(), name) {
            return Some(slots[i].value.as_str());
        }
        i += 1;
    }
    None
}

/// The most contextually useful slot value for the model to condition on:
/// names of mobs and targets first, then spells, then actors.
pub fn pick_primary_slot<'a>(slots: &'a Vec<Slot>) -> (r: Option<&'a str>)
    ensures
        match r {
            Some(v) => first_value(context::slot_views(slots@), SLOT_ORDER@) == Some(v@),
            None => first_value(context::slot_views(slots@), SLOT_ORDER@) is None,
        },
{
    let ghost views = context::slot_views(slots@);
    let names: &[&'static str] = &SLOT_ORDER;
    let mut i: usize = 0;
    proof {
        assert(names@.skip(0) =~= names@);
    }
    while i < names.len()
        invariant
            views == context::slot_views(slots@),
            names@ == SLOT_ORDER@,
            i <= names@.len(),
            first_value(views, names@.skip(i as int)) == first_value(views, names@),
        decreases names@.len() - i,
    {
        proof {
            assert(names@.skip(i as int)[0] == names@[i as int]);
            assert(names@.skip(i as int).skip(1) =~= names@.skip(i + 1));
        }
        let found = find_slot(slots, names[i]);
        if found.is_some() {
            return found;
        }
        i += 1;
    }
    None
}

/// Whether the most useful slot, if there is one, can be cut into pieces.
pub open spec fn slot_is_taken(model: Seq<u8>, slots: Seq<(Seq<char>, Seq<char>)>) -> bool {
    first_value(slots, SLOT_ORDER@) matches Some(v) ==> tokenizer::can_encode(model, v)
}

/// The prefix that a model continues, with the most useful slot encoded.
pub fn build_prefix(
    meta: &ModelMeta,
    tokens: &Tokenizer,
    arch: &Archetype,
    reg: &EmotionalRegister,
    kind: &str,
    levels: Levels,
    slots: &Vec<Slot>,
) -> (r: Vec<i64>)
    requires
        slot_is_taken(tokens.model(), context::slot_views(slots@)),
    ensures
        r@ == prefix(
            meta.ctrl@,
            head_tags(*arch, *reg, kind@, levels),
            match first_value(context::slot_views(slots@), SLOT_ORDER@) {
                Some(v) => tokenizer::encoded(tokens.model(), v),
                None => None,
            },
        ),
{
    let slot_ids: Option<Vec<usize>> = match pick_primary_slot(slots) {
        Some(v) => tokens.encode(v),
        None => None,
    };
    prefix_ids(meta, arch, reg, kind, levels, &slot_ids)
}

/// The prefix that a model continues; nothing where the most useful slot cannot
/// be cut into pieces.
pub fn checked_prefix(
    meta: &ModelMeta,
    tokens: &Tokenizer,
    arch: &Archetype,
    reg: &EmotionalRegister,
    kind: &str,
    levels: Levels,
    slots: &Vec<Slot>,
) -> (r: Option<Vec<i64>>)
    ensures
        r is Some == slot_is_taken(tokens.model(), context::slot_views(slots@)),
        r matches Some(ids) ==> ids@ == prefix(
            meta.ctrl@,
            head_tags(*arch, *reg, kind@, levels),
            match first_value(context::slot_views(slots@), SLOT_ORDER@) {
                Some(v) => tokenizer::encoded(tokens.model(), v),
                None => None,
            },
        ),
{
    let taken: bool = match pick_primary_slot(slots) {
        Some(v) => tokens.takes(v),
        None => true,
    };
    if taken {
        Some(build_prefix(meta, tokens, arch, reg, kind, levels, slots))
    } else {
        None
    }
}

/// Where the scores for what follows the last of `ids` ids stand among `count`
/// scores, `vocab_size` for each id; nothing where they are too few.
pub fn last_scores(count: usize, ids: usize, vocab_size: usize) -> (r: Option<(usize, usize)>)
    ensures
        match r {
            Some((from, to)) => {
                &&& ids > 0
                &&& from == (ids - 1) * vocab_size
                &&& to == ids * vocab_size
                &&& to <= count
            },
            None => ids == 0 || ids * vocab_size > count,
        },
{
    if ids == 0 {
        return None;
    }
    match ids.checked_mul(vocab_size) {
        Some(to) => {
            if to > count {
                return None;
            }
            proof {
                assert(ids * vocab_size == (ids - 1) * vocab_size + vocab_size) by (nonlinear_arith);
            }
            Some((to - vocab_size, to))
        },
        None => None,
    }
}

// ── Generation ──────────────────────────────────────────────────────────────

/// An answer that is being generated.
pub struct Generation {
    /// What the model is given next: the prefix and the answer so far.
    pub ids: Vec<i64>,
    /// The answer so far.
    pub response: Vec<i64>,
    /// How long `ids` may get.
    pub max: usize,
    pub eos: i64,
    pub pad: i64,
    pub done: bool,
}

/// How long prefix and answer may get.
pub open spec fn length_limit(max_len: usize, prefix_len: nat, max_new: usize) -> nat {
    if max_len < prefix_len + max_new {
        max_len as nat
    } else {
        prefix_len + max_new as nat
    }
}

impl Generation {
    /// Whether the answer follows the prefix.
    pub open spec fn follows(&self, prefix: Seq<i64>) -> bool {
        self.ids@ == prefix + self.response@
    }

    /// Begins an answer; nothing where the prefix is empty.
    pub fn start(prefix: Vec<i64>, meta: &ModelMeta, max_new: usize) -> (r: Option<Generation>)
        ensures
            match r {
                Some(g) => {
                    &&& prefix@.len() > 0
                    &&& g.ids@ == prefix@
                    &&& g.response@.len() == 0
                    &&& g.follows(prefix@)
                    &&& g.max == length_limit(meta.max_len, prefix@.len(), max_new)
                    &&& g.eos == meta.eos_id
                    &&& g.pad == meta.pad_id
                    &&& !g.done
                },
                None => prefix@.len() == 0,
            },
    {
        let n: usize = prefix.len();
        if n == 0 {
            return None;
        }
        let max: usize = if n > meta.max_len || meta.max_len - n < max_new {
            meta.max_len
        } else {
            n + max_new
        };
        let g = Generation {
            ids: prefix,
            response: Vec::new(),
            max,
            eos: meta.eos_id,
            pad: meta.pad_id,
            done: false,
        };
        proof {
            assert(prefix@ + g.response@ =~= prefix@);
        }
        Some(g)
    }

    /// Whether the model is asked for another token.
    pub fn wants_more(&self) -> (r: bool)
        ensures
            r == (!self.done && self.ids@.len() < self.max),
    {
        !self.done && self.ids.len() < self.max
    }

    /// Takes the token that the model gave: the end mark and the padding end the
    /// answer, any other token belongs to it.
    pub fn take(&mut self, next: i64)
        ensures
            final(self).max == old(self).max,
            final(self).eos == old(self).eos,
            final(self).pad == old(self).pad,
            next == old(self).eos || next == old(self).pad ==> {
                &&& final(self).done
                &&& final(self).ids@ == old(self).ids@
                &&& final(self).response@ == old(self).response@
            },
            next != old(self).eos && next != old(self).pad ==> {
                &&& final(self).done == old(self).done
                &&& final(self).ids@ == old(self).ids@.push(next)
                &&& final(self).response@ == old(self).response@.push(next)
            },
            forall|prefix: Seq<i64>| old(self).follows(prefix) ==> #[trigger] final(self).follows(
                prefix,
            ),
    {
        let ghost before = *self;
        if next == self.eos || next == self.pad {
            self.done = true;
            proof {
                assert forall|prefix: Seq<i64>| before.follows(
                    prefix,
                ) implies #[trigger] self.follows(prefix) by {}
            }
        } else {
            self.ids.push(next);
            self.response.push(next);
            proof {
                assert forall|prefix: Seq<i64>| before.follows(
                    prefix,
                ) implies #[trigger] self.follows(prefix) by {
                    assert(self.ids@ =~= prefix + self.response@);
                }
            }
        }
    }

    /// The ids of the answer as the tokenizer takes them.
    pub open spec fn answer_ids(&self) -> Seq<usize> {
        self.response@.map_values(|x: i64| x as usize)
    }

    /// The answer in words; nothing where it is empty or cannot be decoded.
    pub fn answer(&self, tokens: &Tokenizer) -> (r: Option<String>)
        requires
            self.response@.len() > 0 ==> tokenizer::can_decode(tokens.model()),
        ensures
            text::opt_view(r) == if self.response@.len() == 0 {
                None
            } else {
                answer_text(tokenizer::decoded(tokens.model(), self.answer_ids()))
            },
    {
        let n: usize = self.response.len();
        if n == 0 {
            return None;
        }
        let mut ids: Vec<usize> = Vec::new();
        let mut i: usize = 0;
        proof {
            assert(ids@ =~= self.answer_ids().take(0));
        }
        while i < n
            invariant
                n == self.response@.len(),
                i <= n,
                ids@ == self.answer_ids().take(i as int),
            decreases n - i,
        {
            ids.push(#[verifier::truncate] (self.response[i] as usize));
            proof {
                assert(ids@ =~= self.answer_ids().take(i + 1));
            }
            i += 1;
        }
        proof {
            assert(ids@ =~= self.answer_ids());
        }
        trimmed_answer(tokens.decode(&ids))
    }
}

/// An answer without the white space around it; nothing where that leaves
/// nothing.
pub open spec fn answer_text(t: Option<Seq<char>>) -> Option<Seq<char>> {
    match t {
        Some(s) => if text::trimmed(s).len() == 0 {
            None
        } else {
            Some(text::trimmed(s))
        },
        None => None,
    }
}

/// An answer without the white space around it.
pub fn trimmed_answer(t: Option<String>) -> (r: Option<String>)
    ensures
        text::opt_view(r) == answer_text(text::opt_view(t)),
{
    match t {
        Some(s) => {
            let out = text::trim(s.as_str());
            if out.as_str().is_empty() {
                None
            } else {
                Some(out)
            }
        },
        None => None,
    }
}

// ── Laws ────────────────────────────────────────────────────────────────────

/// Prefix and answer together never outgrow the model, unless the prefix alone
/// does, and the answer is never longer than was allowed.
pub proof fn answers_fit_the_model(max_len: usize, prefix_len: nat, max_new: usize)
    ensures
        length_limit(max_len, prefix_len, max_new) <= max_len,
        length_limit(max_len, prefix_len, max_new) <= prefix_len + max_new,
{
}

/// A model that knows none of the tags gets a prefix of slot ids alone, and
/// where there are none either, an empty one: nothing is generated then.
pub proof fn unknown_tags_give_no_prefix(tags: Seq<Seq<char>>)
    ensures
        prefix(Map::empty(), tags, None).len() == 0,
{
    no_ids_without_tags(tags);
    no_ids_without_tags(seq!["[RESPONSE]"@]);
}

proof fn no_ids_without_tags(tags: Seq<Seq<char>>)
    ensures
        tag_ids(Map::empty(), tags).len() == 0,
    decreases tags.len(),
{
    if tags.len() > 0 {
        no_ids_without_tags(tags.drop_last());
    }
}

} // verus!
