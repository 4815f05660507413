//! What holds of the prompt that a model is given.
use vstd::prelude::*;

use crate::chat::neural::answer_text;
use crate::chat::neural::first_value;
use crate::chat::neural::head_tags;
use crate::chat::neural::length_limit;
use crate::chat::neural::missing;
use crate::chat::neural::prefix;
use crate::chat::neural::slot_value;
use crate::chat::neural::tag_ids;
use crate::chat::neural::token_numbers;
use crate::chat::neural::MetaView;
use crate::chat::neural::{Level, Levels};
use crate::chat::personality::Archetype;
use crate::chat::state::EmotionalRegister;
use crate::text;
use crate::text_laws;

verus! {

/// The ids of a run of tags are those of its first part, then those of the rest.
pub proof fn tags_keep_their_order(
    ctrl: Map<Seq<Seq<char>>, i64>,
    a: Seq<Seq<char>>,
    b: Seq<Seq<char>>,
)
    ensures
        tag_ids(ctrl, a + b) == tag_ids(ctrl, a) + tag_ids(ctrl, b),
    decreases b.len(),
{
    if b.len() == 0 {
        assert(a + b =~= a);
        assert(tag_ids(ctrl, a) + tag_ids(ctrl, b) =~= tag_ids(ctrl, a));
    } else {
        assert((a + b).drop_last() =~= a + b.drop_last());
        assert((a + b).last() == b.last());
        tags_keep_their_order(ctrl, a, b.drop_last());
        assert(tag_ids(ctrl, a + b) =~= tag_ids(ctrl, a) + tag_ids(ctrl, b));
    }
}

/// A tag that the model knows gives its id, and one that it does not know gives
/// nothing.
pub proof fn known_tags_give_their_id(ctrl: Map<Seq<Seq<char>>, i64>, tag: Seq<char>)
    ensures
        ctrl.dom().contains(seq![tag]) ==> tag_ids(ctrl, seq![tag]) == seq![ctrl[seq![tag]]],
        !ctrl.dom().contains(seq![tag]) ==> tag_ids(ctrl, seq![tag]).len() == 0,
{
    let none = Seq::<Seq<char>>::empty();
    assert(seq![tag].drop_last() =~= none);
    assert(tag_ids(ctrl, none) =~= Seq::<i64>::empty());
    assert(tag_ids(ctrl, seq![tag]) =~= if ctrl.dom().contains(seq![tag]) {
        seq![ctrl[seq![tag]]]
    } else {
        Seq::<i64>::empty()
    });
}

/// A prompt is the ids of its tags, then those of the slot, then the mark after
/// which the answer follows: whatever comes before it, the answer begins there.
pub proof fn prompts_end_where_the_answer_begins(
    ctrl: Map<Seq<Seq<char>>, i64>,
    tags: Seq<Seq<char>>,
    slot: Seq<usize>,
)
    requires
        ctrl.dom().contains(seq!["[RESPONSE]"@]),
        forall|k: int| 0 <= k < slot.len() ==> slot[k] <= i64::MAX,
    ensures
        prefix(ctrl, tags, None) == tag_ids(ctrl, tags).push(ctrl[seq!["[RESPONSE]"@]]),
        prefix(ctrl, tags, Some(slot)).len() == tag_ids(ctrl, tags).len() + slot.len() + 1,
        prefix(ctrl, tags, Some(slot)).last() == ctrl[seq!["[RESPONSE]"@]],
        forall|k: int|
            0 <= k < slot.len() ==> #[trigger] prefix(ctrl, tags, Some(slot))[tag_ids(
                ctrl,
                tags,
            ).len() + k] == slot[k],
        tag_ids(ctrl, tags).is_prefix_of(prefix(ctrl, tags, Some(slot))),
{
    known_tags_give_their_id(ctrl, "[RESPONSE]"@);
    let t = tag_ids(ctrl, tags);
    let p = prefix(ctrl, tags, Some(slot));
    assert(prefix(ctrl, tags, None) =~= t.push(ctrl[seq!["[RESPONSE]"@]]));
    assert(p.subrange(0, t.len() as int) =~= t);
}

/// The tags name the speaker's archetype, their register and the trigger, each
/// behind its own head; then how they talk, where that is out of the ordinary.
pub proof fn tags_say_who_speaks(
    arch: Archetype,
    reg: EmotionalRegister,
    kind: Seq<char>,
    levels: Levels,
)
    ensures
        ({
            let t = head_tags(arch, reg, kind, levels);
            let v = if levels.verbosity is Middle {
                0int
            } else {
                1int
            };
            let h = if levels.humor is Middle {
                0int
            } else {
                1int
            };
            let p = if levels.patience is Middle {
                0int
            } else {
                1int
            };
            &&& t.len() == 6 + v + h + p
            &&& t[0] == "[ARCH]"@ && t[2] == "[REG]"@ && t[4] == "[TRIG]"@
            &&& arch is RaidLeader ==> t[1] == "["@ + "RaidLeader"@ + "]"@
            &&& arch is QuietAnchor ==> t[1] == "["@ + "QuietAnchor"@ + "]"@
            &&& arch is ChaoticNarrator ==> t[1] == "["@ + "ChaoticNarrator"@ + "]"@
            &&& arch is ReactiveObserver ==> t[1] == "["@ + "ReactiveObserver"@ + "]"@
            &&& t[3] == "["@ + reg.spec_name() + "]"@
            &&& levels.verbosity is High ==> t[6] == "[VERBOSE]"@
            &&& levels.verbosity is Low ==> t[6] == "[TERSE]"@
            &&& levels.humor is High ==> t[6 + v] == "[HUMOROUS]"@
            &&& levels.humor is Low ==> t[6 + v] == "[SERIOUS]"@
            &&& levels.patience is High ==> t[6 + v + h] == "[PATIENT]"@
            &&& levels.patience is Low ==> t[6 + v + h] == "[IMPATIENT]"@
        }),
{
}

/// A slot has the value that stands first under its name, and none where no slot
/// has that name.
pub proof fn slots_have_their_first_value(
    slots: Seq<(Seq<char>, Seq<char>)>,
    name: Seq<char>,
    i: int,
)
    requires
        0 <= i <= slots.len(),
        forall|j: int| 0 <= j < i ==> (#[trigger] slots[j]).0 != name,
        i < slots.len() ==> slots[i].0 == name,
    ensures
        i < slots.len() ==> slot_value(slots, name) == Some(slots[i].1),
        i == slots.len() ==> slot_value(slots, name) is None,
    decreases slots.len(),
{
    if i > 0 {
        let rest = slots.skip(1);
        assert(slots[0].0 != name);
        assert forall|j: int| 0 <= j < i - 1 implies (#[trigger] rest[j]).0 != name by {
            assert(rest[j] == slots[j + 1]);
        }
        slots_have_their_first_value(rest, name, i - 1);
    }
}

/// The slot that a model is told of is the first in the order of use that has a
/// value.
pub proof fn the_most_useful_slot_is_told(
    slots: Seq<(Seq<char>, Seq<char>)>,
    names: Seq<&'static str>,
    k: int,
)
    requires
        0 <= k <= names.len(),
        forall|j: int| 0 <= j < k ==> slot_value(slots, (#[trigger] names[j])@) is None,
        k < names.len() ==> slot_value(slots, names[k]@) is Some,
    ensures
        k < names.len() ==> first_value(slots, names) == slot_value(slots, names[k]@),
        k == names.len() ==> first_value(slots, names) is None,
    decreases names.len(),
{
    if k > 0 {
        let rest = names.skip(1);
        assert(slot_value(slots, names[0]@) is None);
        assert forall|j: int| 0 <= j < k - 1 implies slot_value(
            slots,
            (#[trigger] rest[j])@,
        ) is None by {
            assert(rest[j] == names[j + 1]);
        }
        the_most_useful_slot_is_told(slots, rest, k - 1);
    }
}

/// A control token has the last id that is given for it; a token without one is
/// not known, and none is made up.
pub proof fn tokens_have_their_last_id(
    tokens: Seq<(Seq<char>, Option<i64>)>,
    name: Seq<char>,
    id: i64,
)
    ensures
        token_numbers(tokens.push((name, Some(id)))).dom().contains(seq![name]),
        token_numbers(tokens.push((name, Some(id))))[seq![name]] == id,
        token_numbers(tokens.push((name, None))) == token_numbers(tokens),
        forall|other: Seq<char>|
            other != name ==> {
                &&& #[trigger] token_numbers(tokens.push((name, Some(id)))).dom().contains(
                    seq![other],
                ) == token_numbers(tokens).dom().contains(seq![other])
            },
{
    assert(tokens.push((name, Some(id))).drop_last() =~= tokens);
    assert(tokens.push((name, None)).drop_last() =~= tokens);
    assert forall|other: Seq<char>| other != name implies #[trigger] token_numbers(
        tokens.push((name, Some(id))),
    ).dom().contains(seq![other]) == token_numbers(tokens).dom().contains(seq![other]) by {
        assert(seq![other][0] == other && seq![name][0] == name);
    }
}

/// A description is complete just where it has every field.
pub proof fn complete_descriptions_lack_nothing(m: MetaView)
    ensures
        missing(m) is None <==> m.base_vocab is Some && m.control_tokens is Some
            && m.vocab_size is Some && m.max_len is Some && m.pad_id is Some && m.bos_id is Some
            && m.eos_id is Some,
{
}

/// An answer has as much room as was asked for, but prompt and answer together
/// never more than the model takes.
pub proof fn answers_have_the_room_that_is_left(max_len: usize, prompt: nat, asked: usize)
    ensures
        length_limit(max_len, prompt, asked) <= max_len,
        length_limit(max_len, prompt, asked) <= prompt + asked,
        length_limit(max_len, prompt, asked) == max_len || length_limit(max_len, prompt, asked)
            == prompt + asked,
{
}

/// An answer is what the model said without the white space around it, and there is
/// none where that leaves nothing.
pub proof fn answers_are_trimmed(before: Seq<char>, s: Seq<char>, after: Seq<char>)
    requires
        text_laws::is_blank(before),
        text_laws::is_blank(after),
        s.len() > 0 ==> !text::is_white_space(s.first()) && !text::is_white_space(s.last()),
    ensures
        s.len() > 0 ==> answer_text(Some(before + s + after)) == Some(s),
        s.len() == 0 ==> answer_text(Some(before + s + after)) is None,
        answer_text(None) is None,
{
    text_laws::white_space_is_taken_off(before, s, after);
}

} // verus!
