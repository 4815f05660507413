//! How a character's text is given its surface: case, fillers, fragments,
//! typos.
use rand::rngs::StdRng;
use vstd::prelude::*;

use crate::chat::dice;
use crate::text;

verus! {

/// Messages of fewer bytes than this get no typo; as many bytes of a message
/// its correction repeats.
pub const TYPO_BYTES: usize = 8;

/// Messages of more bytes than this are cut at a comma.
pub const LONG_BYTES: usize = 30;

/// How many bytes a character takes in UTF-8.
pub open spec fn utf8_len(c: char) -> nat {
    vstd::utf8::encode_scalar(c as u32).len()
}

/// How many bytes a text takes in UTF-8.
pub open spec fn byte_len(s: Seq<char>) -> nat
    decreases s.len(),
{
    if s.len() == 0 {
        0
    } else {
        byte_len(s.drop_last()) + utf8_len(s.last())
    }
}

fn char_bytes(c: char) -> (r: usize)
    ensures
        r == utf8_len(c),
        1 <= r <= 4,
        r == 1 <==> (c as u32) < 0x80,
{
    let n: u32 = c as u32;
    if n < 0x80 {
        1
    } else if n < 0x800 {
        2
    } else if n < 0x10000 {
        3
    } else {
        4
    }
}

proof fn byte_len_bounds(s: Seq<char>)
    ensures
        byte_len(s) >= s.len(),
    decreases s.len(),
{
    if s.len() > 0 {
        byte_len_bounds(s.drop_last());
    }
}

proof fn byte_len_prefix(s: Seq<char>, n: int)
    requires
        0 <= n <= s.len(),
    ensures
        byte_len(s.take(n)) + byte_len(s.skip(n)) == byte_len(s),
    decreases s.len(),
{
    if n == s.len() {
        assert(s.take(n) =~= s);
        assert(s.skip(n) =~= Seq::<char>::empty());
    } else {
        assert(s.drop_last().take(n) =~= s.take(n));
        assert(s.drop_last().skip(n) =~= s.skip(n).drop_last());
        byte_len_prefix(s.drop_last(), n);
        assert(s.skip(n).last() == s.last());
    }
}

/// Whether a text takes more than `max` bytes.
pub fn longer_than(s: &str, max: usize) -> (r: bool)
    requires
        max <= 0xffff,
    ensures
        r == (byte_len(s@) > max),
{
    let v = text::chars_of(s);
    let mut n: usize = 0;
    let mut i: usize = 0;
    while i < v.len()
        invariant
            v@ == s@,
            max <= 0xffff,
            i <= v@.len(),
            n == byte_len(v@.take(i as int)),
            n <= max,
        decreases v@.len() - i,
    {
        proof {
            assert(v@.take(i + 1).drop_last() =~= v@.take(i as int));
            assert(v@.take(i + 1).last() == v@[i as int]);
        }
        n += char_bytes(v[i]);
        if n > max {
            proof {
                byte_len_prefix(v@, i + 1);
            }
            return true;
        }
        i += 1;
    }
    proof {
        assert(v@.take(i as int) =~= v@);
    }
    false
}

// ── Fragments ───────────────────────────────────────────────────────────────

/// Whether a sentence ends at `i`: at a mark that more than two bytes precede.
pub open spec fn ends_sentence(s: Seq<char>, i: int) -> bool {
    &&& 0 <= i < s.len()
    &&& s[i] == '.' || s[i] == '!' || s[i] == '?'
    &&& byte_len(s.take(i)) > 2
}

/// Whether `i` is the first place where a sentence ends.
pub open spec fn first_end(s: Seq<char>, i: int) -> bool {
    ends_sentence(s, i) && forall|j: int| 0 <= j < i ==> !ends_sentence(s, j)
}

/// Whether `i` is the first place of a comma.
pub open spec fn first_comma(s: Seq<char>, i: int) -> bool {
    0 <= i < s.len() && s[i] == ',' && forall|j: int| 0 <= j < i ==> s[j] != ','
}

/// Whether `r` is the first sentence of `s`, its mark included; or, where no
/// sentence ends and the text is long, what precedes its first comma; else all
/// of it.
pub open spec fn is_fragment(s: Seq<char>, r: Seq<char>) -> bool {
    if exists|i: int| #[trigger] ends_sentence(s, i) {
        exists|i: int| #[trigger] first_end(s, i) && r == text::trimmed(s.take(i + 1))
    } else if byte_len(s) > LONG_BYTES && text::has_char(s, ',') {
        exists|i: int| #[trigger] first_comma(s, i) && r == text::trimmed(s.take(i))
    } else {
        r == s
    }
}

/// Truncate a message to its first sentence or meaningful fragment.
pub fn truncate_to_fragment(s: &str) -> (r: String)
    ensures
        is_fragment(s@, r@),
{
    let v = text::chars_of(s);
    let mut n: usize = 0;
    let mut i: usize = 0;
    while i < v.len()
        invariant
            v@ == s@,
            i <= v@.len(),
            n <= 3,
            n < 3 ==> n == byte_len(v@.take(i as int)),
            n == 3 ==> byte_len(v@.take(i as int)) >= 3,
            forall|j: int| 0 <= j < i ==> !ends_sentence(v@, j),
        decreases v@.len() - i,
    {
        let c: char = v[i];
        if (c == '.' || c == '!' || c == '?') && n > 2 {
            let head = text::string_of_range(&v, 0, i + 1);
            proof {
                assert(head@ =~= s@.take(i + 1));
                assert(first_end(s@, i as int));
            }
            return text::trim(head.as_str());
        }
        proof {
            assert(v@.take(i + 1).drop_last() =~= v@.take(i as int));
            assert(v@.take(i + 1).last() == c);
        }
        n += char_bytes(c);
        if n > 3 {
            n = 3;
        }
        i += 1;
    }
    if longer_than(s, LONG_BYTES) {
        let mut k: usize = 0;
        while k < v.len()
            invariant
                v@ == s@,
                k <= v@.len(),
                forall|j: int| 0 <= j < k ==> v@[j] != ',',
                forall|j: int| 0 <= j < v@.len() ==> !ends_sentence(v@, j),
                byte_len(s@) > LONG_BYTES,
            decreases v@.len() - k,
        {
            if v[k] == ',' {
                let head = text::string_of_range(&v, 0, k);
                proof {
                    assert(head@ =~= s@.take(k as int));
                    assert(first_comma(s@, k as int));
                }
                return text::trim(head.as_str());
            }
            k += 1;
        }
    }
    s.to_owned()
}

// ── Style ───────────────────────────────────────────────────────────────────

/// Whether `s` ends with `p`.
pub open spec fn ends_with(s: Seq<char>, p: Seq<char>) -> bool {
    p.len() <= s.len() && s.skip(s.len() - p.len()) == p
}

fn text_ends_with(s: &str, p: &str) -> (r: bool)
    ensures
        r == ends_with(s@, p@),
{
    let v = text::chars_of(s);
    let q = text::chars_of(p);
    let n: usize = v.len();
    let m: usize = q.len();
    if m > n {
        return false;
    }
    proof {
        assert(v@.subrange(n - m, n as int) =~= s@.skip(n - m));
    }
    text::matches_at(&v, &q, n - m)
}

/// A text in the case that a character writes it in.
pub open spec fn cased(s: Seq<char>, lower: bool) -> Seq<char> {
    if lower {
        text::lowercase(s)
    } else {
        s
    }
}

/// A text with a filler behind it, unless it ends with the filler already,
/// however either is written.
pub open spec fn with_filler(s: Seq<char>, filler: Option<Seq<char>>, add: bool) -> Seq<char> {
    match filler {
        Some(f) => if add && !ends_with(text::lowercase(s), text::lowercase(f)) {
            s + " "@ + f
        } else {
            s
        },
        None => s,
    }
}

/// Whether `r` is `s` in a character's style.
pub open spec fn is_styled(
    s: Seq<char>,
    filler: Option<Seq<char>>,
    lower: bool,
    add: bool,
    fragment: bool,
    r: Seq<char>,
) -> bool {
    let t = with_filler(cased(s, lower), filler, add);
    if fragment {
        is_fragment(t, r)
    } else {
        r == t
    }
}

/// A text in a character's style: in lower case or not, with the character's
/// filler or not, and cut to a fragment or not.
pub fn apply_style(
    s: String,
    filler: &Option<String>,
    lower: bool,
    add: bool,
    fragment: bool,
) -> (r: String)
    ensures
        is_styled(s@, text::opt_view(*filler), lower, add, fragment, r@),
{
    let mut out: String = if lower {
        text::to_lowercase(s.as_str())
    } else {
        s
    };
    if let Some(f) = filler {
        if add {
            let plain = text::to_lowercase(out.as_str());
            let small = text::to_lowercase(f.as_str());
            if !text_ends_with(plain.as_str(), small.as_str()) {
                out.append(" ");
                out.append(f.as_str());
            }
        }
    }
    if fragment {
        truncate_to_fragment(out.as_str())
    } else {
        out
    }
}

// ── Typos ───────────────────────────────────────────────────────────────────

/// Where the last space stands, or the start where there is none.
pub open spec fn last_space(s: Seq<char>) -> int
    decreases s.len(),
{
    if s.len() == 0 || s.last() == ' ' {
        if s.len() == 0 {
            0
        } else {
            s.len() - 1
        }
    } else {
        last_space(s.drop_last())
    }
}

/// Whether a word at the end of a text can lose letters: the text has at least
/// four characters, and more than two bytes stand from its last space on.
pub open spec fn has_typo_room(s: Seq<char>) -> bool {
    s.len() >= 4 && byte_len(s.skip(last_space(s))) > 2
}

/// Whether that word is in ASCII, so that it can be cut after each byte.
pub open spec fn typo_safe(s: Seq<char>) -> bool {
    has_typo_room(s) ==> forall|i: int|
        last_space(s) <= i < s.len() ==> (#[trigger] s[i] as u32) < 0x80
}

proof fn last_space_within(s: Seq<char>)
    ensures
        0 <= last_space(s),
        s.len() > 0 ==> last_space(s) < s.len(),
    decreases s.len(),
{
    if s.len() > 0 && s.last() != ' ' {
        last_space_within(s.drop_last());
    }
}

fn find_last_space(v: &Vec<char>) -> (r: usize)
    ensures
        r == last_space(v@),
{
    let mut n: usize = v.len();
    proof {
        assert(v@.take(n as int) =~= v@);
    }
    while n > 0
        invariant
            n <= v@.len(),
            last_space(v@.take(n as int)) == last_space(v@),
        decreases n,
    {
        proof {
            assert(v@.take(n as int).last() == v@[n - 1]);
            assert(v@.take(n as int).drop_last() =~= v@.take(n - 1));
        }
        if v[n - 1] == ' ' {
            return n - 1;
        }
        n -= 1;
    }
    0
}

fn suffix_of(v: &Vec<char>, from: usize) -> (r: String)
    requires
        from <= v@.len(),
    ensures
        r@ == v@.skip(from as int),
{
    let r = text::string_of_range(v, from, v.len());
    proof {
        assert(r@ =~= v@.skip(from as int));
    }
    r
}

/// How many bytes of some characters there are.
fn count_bytes(v: &Vec<char>, from: usize) -> (r: u128)
    requires
        from <= v@.len(),
    ensures
        r == byte_len(v@.skip(from as int)),
        r >= v@.len() - from,
        (forall|i: int| from <= i < v@.len() ==> (#[trigger] v@[i] as u32) < 0x80) ==> r
            == v@.len() - from,
{
    let ghost t = v@.skip(from as int);
    let n: usize = v.len();
    let mut sum: u128 = 0;
    let mut i: usize = from;
    proof {
        assert(t.take(0) =~= Seq::<char>::empty());
    }
    while i < n
        invariant
            n == v.len(),
            from <= i <= n,
            t == v@.skip(from as int),
            sum == byte_len(t.take(i - from)),
            i - from <= sum <= 4 * (i - from),
            (forall|k: int| from <= k < n ==> (#[trigger] v@[k] as u32) < 0x80) ==> sum == i - from,
        decreases n - i,
    {
        proof {
            assert(t.take(i - from + 1).drop_last() =~= t.take(i - from));
            assert(t.take(i - from + 1).last() == v@[i as int]);
        }
        sum += char_bytes(v[i]) as u128;
        i += 1;
    }
    proof {
        assert(t.take(n - from) =~= t);
    }
    sum
}

/// The character that begins `bytes` bytes behind the one at `from`, if one
/// begins there.
fn char_behind(v: &Vec<char>, from: usize, bytes: usize) -> (r: Option<usize>)
    requires
        from < v@.len(),
        0 < bytes < byte_len(v@.skip(from as int)),
    ensures
        r matches Some(i) ==> from < i < v@.len(),
        r is None ==> exists|i: int|
            from <= i < v@.len() && (#[trigger] v@[i] as u32) >= 0x80,
{
    let ghost t = v@.skip(from as int);
    let n: usize = v.len();
    let mut sum: usize = 0;
    let mut i: usize = from;
    proof {
        assert(t.take(0) =~= Seq::<char>::empty());
    }
    while i < n
        invariant
            n == v.len(),
            from <= i <= n,
            t == v@.skip(from as int),
            0 < bytes < byte_len(t),
            sum == byte_len(t.take(i - from)),
            sum < bytes,
        decreases n - i,
    {
        proof {
            assert(t.take(i - from + 1).drop_last() =~= t.take(i - from));
            assert(t.take(i - from + 1).last() == v@[i as int]);
        }
        let w: usize = char_bytes(v[i]);
        if w > bytes - sum {
            proof {
                assert(v@[i as int] as u32 >= 0x80);
            }
            return None;
        }
        sum += w;
        i += 1;
        if sum == bytes {
            proof {
                if i == n {
                    assert(t.take(i - from) =~= t);
                }
            }
            return Some(i);
        }
    }
    proof {
        assert(t.take(n - from) =~= t);
    }
    None
}

/// Inject a simple typo into a message for the correction pattern: the last
/// word loses some bytes; nothing where chance would cut inside a character.
pub fn inject_typo(s: &str, rng: &mut StdRng) -> (r: Option<String>)
    ensures
        !has_typo_room(s@) ==> text::opt_view(r) == Some(s@),
        has_typo_room(s@) && r is Some ==> exists|cut: int|
            last_space(s@) < cut < s@.len() && r->0@ == #[trigger] s@.take(cut),
        typo_safe(s@) ==> r is Some,
{
    let v = text::chars_of(s);
    let n: usize = v.len();
    if n < 4 {
        return Some(s.to_owned());
    }
    let from: usize = find_last_space(&v);
    proof {
        last_space_within(s@);
    }
    let total: u128 = count_bytes(&v, from);
    if total <= 2 {
        return Some(s.to_owned());
    }
    if total > usize::MAX as u128 {
        return None;
    }
    let bytes: usize = dice::draw_index(rng, 1, total as usize);
    match char_behind(&v, from, bytes) {
        Some(cut) => {
            let r = text::string_of_range(&v, 0, cut);
            proof {
                assert(r@ =~= s@.take(cut as int));
            }
            Some(r)
        },
        None => None,
    }
}

/// Where the last `n` bytes of a text begin, where a character begins there.
pub open spec fn tail_start(s: Seq<char>, n: nat) -> Option<int>
    decreases s.len(),
{
    if n == 0 {
        Some(s.len() as int)
    } else if s.len() == 0 || utf8_len(s.last()) > n {
        None
    } else {
        tail_start(s.drop_last(), (n - utf8_len(s.last())) as nat)
    }
}

fn find_tail(v: &Vec<char>) -> (r: Option<usize>)
    ensures
        match r {
            Some(i) => tail_start(v@, TYPO_BYTES as nat) == Some(i as int) && i <= v@.len(),
            None => tail_start(v@, TYPO_BYTES as nat) is None,
        },
{
    let mut i: usize = v.len();
    let mut left: usize = TYPO_BYTES;
    proof {
        assert(v@.take(i as int) =~= v@);
    }
    while left > 0
        invariant
            i <= v@.len(),
            left <= TYPO_BYTES,
            tail_start(v@.take(i as int), left as nat) == tail_start(v@, TYPO_BYTES as nat),
        decreases left,
    {
        if i == 0 {
            return None;
        }
        let w: usize = char_bytes(v[i - 1]);
        proof {
            assert(v@.take(i as int).last() == v@[i - 1]);
            assert(v@.take(i as int).drop_last() =~= v@.take(i - 1));
        }
        if w > left {
            return None;
        }
        left -= w;
        i -= 1;
    }
    Some(i)
}

/// What a correction says: a star and the last bytes of the message.
pub open spec fn correction_text(s: Seq<char>) -> Seq<char> {
    match tail_start(s, TYPO_BYTES as nat) {
        Some(i) => "*"@ + s.skip(i),
        None => "*"@,
    }
}

/// Whether a message can be corrected: where there is room for a typo, one can
/// be made, and the message's last bytes begin with a character.
pub open spec fn correctable(s: Seq<char>) -> bool {
    has_typo_room(s) ==> typo_safe(s) && tail_start(s, TYPO_BYTES as nat) is Some
}

/// What the correction of a message says; nothing where its last bytes begin
/// inside a character.
pub fn correction_of(s: &str) -> (r: Option<String>)
    ensures
        r is Some == tail_start(s@, TYPO_BYTES as nat) is Some,
        r matches Some(t) ==> t@ == correction_text(s@),
{
    let v = text::chars_of(s);
    match find_tail(&v) {
        Some(i) => {
            let mut out: String = "*".to_owned();
            let t = suffix_of(&v, i);
            out.append(t.as_str());
            Some(out)
        },
        None => None,
    }
}

// ── Laws ────────────────────────────────────────────────────────────────────

/// A text that ends with the filler gets no second one, and a text given the
/// filler ends with it.
pub proof fn fillers_close_a_text(s: Seq<char>, f: Seq<char>)
    ensures
        ends_with(text::lowercase(s), text::lowercase(f)) ==> with_filler(s, Some(f), true) == s,
        !ends_with(text::lowercase(s), text::lowercase(f)) ==> ends_with(
            with_filler(s, Some(f), true),
            f,
        ),
{
    let t = s + " "@ + f;
    assert(t.skip(t.len() - f.len()) =~= f);
}

/// A message is never longer for being cut to a fragment.
pub proof fn fragments_are_no_longer(s: Seq<char>, r: Seq<char>)
    requires
        is_fragment(s, r),
    ensures
        r.len() <= s.len(),
{
    if exists|i: int| #[trigger] ends_sentence(s, i) {
        let i = choose|i: int| #[trigger] first_end(s, i) && r == text::trimmed(s.take(i + 1));
        trimmed_is_shorter(s.take(i + 1));
    } else if byte_len(s) > LONG_BYTES && text::has_char(s, ',') {
        let i = choose|i: int| #[trigger] first_comma(s, i) && r == text::trimmed(s.take(i));
        trimmed_is_shorter(s.take(i));
    }
}

proof fn trimmed_is_shorter(s: Seq<char>)
    ensures
        text::trimmed(s).len() <= s.len(),
{
    trimmed_start_is_shorter(s);
    trimmed_end_is_shorter(s);
    trimmed_start_is_shorter(text::trimmed_end(s));
    trimmed_end_is_shorter(text::trimmed_start(s));
}

proof fn trimmed_start_is_shorter(s: Seq<char>)
    ensures
        text::trimmed_start(s).len() <= s.len(),
    decreases s.len(),
{
    if s.len() > 0 && text::is_white_space(s[0]) {
        trimmed_start_is_shorter(s.drop_first());
        trimmed_start_is_shorter(s.skip(1));
    }
}

proof fn trimmed_end_is_shorter(s: Seq<char>)
    ensures
        text::trimmed_end(s).len() <= s.len(),
    decreases s.len(),
{
    if s.len() > 0 {
        trimmed_end_is_shorter(s.drop_last());
    }
}

/// A typo only drops letters at the end: the message begins with what was typed.
pub proof fn typos_drop_an_ending(s: Seq<char>, cut: int)
    requires
        last_space(s) < cut < s.len(),
    ensures
        s.take(cut) != s,
        s.take(cut) + s.skip(cut) == s,
        last_space(s) < s.take(cut).len(),
{
    last_space_within(s);
    assert(s.take(cut) + s.skip(cut) =~= s);
    assert(s.take(cut).len() != s.len());
}

/// A fragment is the first sentence, its mark with it, whatever follows; where a
/// text has no mark, it is all of a short text, and of a long one what stands
/// before its first comma.
pub proof fn fragments_are_first_sentences(
    a: Seq<char>,
    mark: char,
    b: Seq<char>,
    r: Seq<char>,
)
    requires
        mark == '.' || mark == '!' || mark == '?',
        byte_len(a) > 2,
        forall|i: int| 0 <= i < a.len() ==> a[i] != '.' && a[i] != '!' && a[i] != '?',
        is_fragment(a.push(mark) + b, r),
    ensures
        r == text::trimmed(a.push(mark)),
{
    let s = a.push(mark) + b;
    let n = a.len() as int;
    assert(s.take(n) =~= a);
    assert(s[n] == mark);
    assert(ends_sentence(s, n));
    let i = choose|i: int| #[trigger] first_end(s, i) && r == text::trimmed(s.take(i + 1));
    if i < n {
        assert(s[i] == a[i]);
    } else if i > n {
        assert(!ends_sentence(s, n));
    }
    assert(s.take(n + 1) =~= a.push(mark));
}

/// The same of texts without a mark.
pub proof fn unmarked_fragments_end_at_a_comma(a: Seq<char>, b: Seq<char>, r: Seq<char>)
    requires
        ({
            let s = a.push(',') + b;
            &&& forall|i: int| 0 <= i < s.len() ==> s[i] != '.' && s[i] != '!' && s[i] != '?'
            &&& !text::has_char(a, ',')
            &&& is_fragment(s, r)
        }),
    ensures
        byte_len(a.push(',') + b) > 30 ==> r == text::trimmed(a),
        byte_len(a.push(',') + b) <= 30 ==> r == a.push(',') + b,
{
    let s = a.push(',') + b;
    let n = a.len() as int;
    assert(s[n] == ',');
    assert forall|i: int| !#[trigger] ends_sentence(s, i) by {}
    if byte_len(s) > 30 {
        assert(text::has_char(s, ','));
        let i = choose|i: int| #[trigger] first_comma(s, i) && r == text::trimmed(s.take(i));
        if i < n {
            assert(a[i] == ',');
        }
        assert(i == n);
        assert(s.take(n) =~= a);
    }
}

/// A correction repeats the end of what was said, eight bytes of it: put behind
/// what stands before them, they give the message again.
pub proof fn corrections_repeat_the_end(s: Seq<char>, n: nat)
    ensures
        tail_start(s, n) matches Some(i) ==> 0 <= i <= s.len() && byte_len(s.skip(i)) == n
            && s.take(i) + s.skip(i) == s,
        tail_start(s, 8) is Some ==> exists|i: int|
            0 <= i <= s.len() && correction_text(s) == seq!['*'] + #[trigger] s.skip(i)
                && byte_len(s.skip(i)) == 8,
    decreases s.len(),
{
    tail_has_its_bytes(s, n);
    tail_has_its_bytes(s, 8);
    reveal_strlit("*");
    assert("*"@ =~= seq!['*']);
    if tail_start(s, n) is Some {
        let i = tail_start(s, n)->0;
        assert(s.take(i) + s.skip(i) =~= s);
    }
    if tail_start(s, 8) is Some {
        let i = tail_start(s, 8)->0;
        assert(correction_text(s) == seq!['*'] + s.skip(i));
    }
}

proof fn tail_has_its_bytes(s: Seq<char>, n: nat)
    ensures
        tail_start(s, n) matches Some(i) ==> 0 <= i <= s.len() && byte_len(s.skip(i)) == n,
    decreases s.len(),
{
    if n == 0 {
        assert(s.skip(s.len() as int) =~= Seq::<char>::empty());
    } else if s.len() > 0 && utf8_len(s.last()) <= n {
        let d = s.drop_last();
        let m = (n - utf8_len(s.last())) as nat;
        tail_has_its_bytes(d, m);
        if tail_start(d, m) is Some {
            let i = tail_start(d, m)->0;
            assert(s.skip(i).drop_last() =~= d.skip(i));
            assert(s.skip(i).last() == s.last());
        }
    }
}

/// The last word of a text stands behind its last space.
pub proof fn the_last_space_precedes_the_last_word(a: Seq<char>, b: Seq<char>)
    requires
        !text::has_char(b, ' '),
    ensures
        last_space(a + seq![' '] + b) == a.len(),
        last_space(b) == 0,
    decreases b.len(),
{
    let s = a + seq![' '] + b;
    if b.len() == 0 {
        assert(s.last() == ' ');
    } else {
        let d = b.drop_last();
        assert(b[b.len() - 1] != ' ');
        assert(!text::has_char(d, ' ')) by {
            if text::has_char(d, ' ') {
                let i = choose|i: int| 0 <= i < d.len() && d[i] == ' ';
                assert(b[i] == ' ');
            }
        }
        the_last_space_precedes_the_last_word(a, d);
        assert(s.drop_last() =~= a + seq![' '] + d);
        assert(s.last() == b.last());
    }
}

} // verus!
