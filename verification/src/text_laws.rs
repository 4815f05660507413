//! What holds of the operations on texts, whatever the texts are.
use vstd::prelude::*;

use crate::text;
use crate::text::not_after;
use crate::text::occurs_at;
use crate::text::pieces;
use crate::text::replaced;
use crate::text::replaced_first;
use crate::text::signed_decimal;
use crate::text::signed_value;
use crate::text::trimmed;
use crate::text::trimmed_end;
use crate::text::trimmed_start;
use crate::text::unsigned_value;
use crate::text::without_leading;
use crate::text::without_trailing;
use crate::text::{has_char, is_white_space};

verus! {

/// Whether `p` stands anywhere in `s`.
pub open spec fn occurs(s: Seq<char>, p: Seq<char>) -> bool {
    exists|i: int| #[trigger] occurs_at(s, p, i)
}

/// Whether `p` stands at `i` in `s`, and nowhere before.
pub open spec fn first_occurs(s: Seq<char>, p: Seq<char>, i: int) -> bool {
    occurs_at(s, p, i) && forall|j: int| 0 <= j < i ==> !#[trigger] occurs_at(s, p, j)
}

proof fn occurs_later(s: Seq<char>, p: Seq<char>, i: int)
    requires
        0 < s.len(),
        0 <= i,
    ensures
        occurs_at(s.skip(1), p, i) == occurs_at(s, p, i + 1),
{
    if i + 1 + p.len() <= s.len() {
        assert(s.skip(1).subrange(i, i + p.len()) =~= s.subrange(i + 1, i + 1 + p.len()));
    }
}

/// Where a text does not stand, replacing it changes nothing.
pub proof fn absent_texts_are_not_replaced(s: Seq<char>, p: Seq<char>, w: Seq<char>)
    requires
        !occurs(s, p),
    ensures
        replaced(s, p, w) == s,
        replaced_first(s, p, w) == s,
    decreases s.len(),
{
    if s.len() > 0 && p.len() > 0 {
        assert(!occurs_at(s, p, 0));
        let t = s.skip(1);
        assert(!occurs(t, p)) by {
            if occurs(t, p) {
                let i = choose|i: int| #[trigger] occurs_at(t, p, i);
                occurs_later(s, p, i);
                assert(occurs_at(s, p, i + 1));
            }
        }
        absent_texts_are_not_replaced(t, p, w);
        assert(seq![s[0]] + t =~= s);
    }
}

/// The first occurrence of a text is replaced, with what stands before it kept.
/// What follows is kept too where only the first is replaced, and is replaced in
/// the same way where all are.
pub proof fn first_occurrence_is_replaced(s: Seq<char>, p: Seq<char>, w: Seq<char>, i: int)
    requires
        p.len() > 0,
        first_occurs(s, p, i),
    ensures
        replaced_first(s, p, w) == s.take(i) + w + s.skip(i + p.len()),
        replaced(s, p, w) == s.take(i) + w + replaced(s.skip(i + p.len()), p, w),
    decreases s.len(),
{
    if i == 0 {
        assert(s.take(0) + w =~= w);
    } else {
        let t = s.skip(1);
        assert(!occurs_at(s, p, 0));
        occurs_later(s, p, i - 1);
        assert forall|j: int| 0 <= j < i - 1 implies !#[trigger] occurs_at(t, p, j) by {
            occurs_later(s, p, j);
            assert(!occurs_at(s, p, j + 1));
        }
        first_occurrence_is_replaced(t, p, w, i - 1);
        assert(t.skip(i - 1 + p.len()) =~= s.skip(i + p.len()));
        assert(seq![s[0]] + t.take(i - 1) =~= s.take(i));
        let rest = replaced(s.skip(i + p.len()), p, w);
        assert(seq![s[0]] + (t.take(i - 1) + w + rest) =~= s.take(i) + w + rest);
        let kept = s.skip(i + p.len());
        assert(seq![s[0]] + (t.take(i - 1) + w + kept) =~= s.take(i) + w + kept);
    }
}

/// The text that is `c`, `n` times.
pub open spec fn repeated(c: char, n: nat) -> Seq<char> {
    Seq::new(n, |i: int| c)
}

/// However often a character stands at the end, none of it is left there, and
/// the rest is as it was.
pub proof fn trailing_is_taken_off(s: Seq<char>, c: char, n: nat)
    requires
        s.len() > 0 ==> s.last() != c,
    ensures
        without_trailing(s + repeated(c, n), c) == s,
    decreases n,
{
    let t = s + repeated(c, n);
    if n > 0 {
        assert(t.drop_last() =~= s + repeated(c, (n - 1) as nat));
        assert(t.last() == c);
        trailing_is_taken_off(s, c, (n - 1) as nat);
    } else {
        assert(t =~= s);
    }
}

/// However often a character stands at the start, none of it is left there, and
/// the rest is as it was.
pub proof fn leading_is_taken_off(s: Seq<char>, c: char, n: nat)
    requires
        s.len() > 0 ==> s.first() != c,
    ensures
        without_leading(repeated(c, n) + s, c) == s,
    decreases n,
{
    let t = repeated(c, n) + s;
    if n > 0 {
        assert(t.drop_first() =~= repeated(c, (n - 1) as nat) + s);
        assert(t.first() == c);
        leading_is_taken_off(s, c, (n - 1) as nat);
    } else {
        assert(t =~= s);
    }
}

/// Whether a text is white space all through.
pub open spec fn is_blank(s: Seq<char>) -> bool {
    forall|i: int| 0 <= i < s.len() ==> is_white_space(#[trigger] s[i])
}

/// Trimming takes off white space at both ends, however much there is, and
/// nothing else.
pub proof fn white_space_is_taken_off(before: Seq<char>, s: Seq<char>, after: Seq<char>)
    requires
        is_blank(before),
        is_blank(after),
        s.len() > 0 ==> !is_white_space(s.first()) && !is_white_space(s.last()),
    ensures
        trimmed(before + s + after) == s,
        s.len() > 0 ==> trimmed_end(before + s + after) == before + s,
        s.len() > 0 ==> trimmed_start(before + s + after) == s + after,
    decreases before.len() + after.len(),
{
    blank_start_goes(before, s + after);
    assert(before + (s + after) =~= before + s + after);
    if s.len() > 0 {
        assert((s + after).first() == s.first());
        blank_end_goes(s, after);
        blank_end_goes(before + s, after);
    } else {
        assert(s + after =~= after);
        blank_start_goes(after, Seq::empty());
        assert(after + Seq::<char>::empty() =~= after);
        assert(trimmed_start(Seq::<char>::empty()) =~= Seq::<char>::empty());
        assert(trimmed_end(Seq::<char>::empty()) =~= Seq::<char>::empty());
        assert(s =~= Seq::<char>::empty());
    }
}

proof fn blank_start_goes(b: Seq<char>, s: Seq<char>)
    requires
        is_blank(b),
    ensures
        trimmed_start(b + s) == trimmed_start(s),
    decreases b.len(),
{
    if b.len() == 0 {
        assert(b + s =~= s);
    } else {
        assert(is_white_space(b[0]));
        assert((b + s).first() == b[0]);
        assert((b + s).drop_first() =~= b.drop_first() + s);
        blank_start_goes(b.drop_first(), s);
    }
}

proof fn blank_end_goes(s: Seq<char>, b: Seq<char>)
    requires
        is_blank(b),
    ensures
        trimmed_end(s + b) == trimmed_end(s),
    decreases b.len(),
{
    if b.len() == 0 {
        assert(s + b =~= s);
    } else {
        assert(is_white_space(b[b.len() - 1]));
        assert((s + b).last() == b.last());
        assert((s + b).drop_last() =~= s + b.drop_last());
        blank_end_goes(s, b.drop_last());
    }
}

/// A text splits at its first separator: what stands before it is the first
/// piece, and the pieces of what stands behind it are the others.
pub proof fn texts_split_at_the_separator(a: Seq<char>, c: char, b: Seq<char>)
    requires
        !has_char(a, c),
    ensures
        pieces(a, c) == seq![a],
        pieces(a + seq![c] + b, c) == seq![a] + pieces(b, c),
    decreases b.len(),
{
    whole_is_one_piece(a, c);
    let s = a + seq![c] + b;
    if b.len() == 0 {
        assert(s.drop_last() =~= a);
        assert(s.last() == c);
        assert(b =~= Seq::<char>::empty());
        assert(pieces(s, c) =~= seq![a] + pieces(b, c));
    } else {
        let d = b.drop_last();
        texts_split_at_the_separator(a, c, d);
        assert(s.drop_last() =~= a + seq![c] + d);
        assert(s.last() == b.last());
        let p = pieces(d, c);
        text::pieces_nonempty(d, c);
        assert((seq![a] + p).last() == p.last());
        assert(pieces(s, c) =~= seq![a] + pieces(b, c));
    }
}

proof fn whole_is_one_piece(a: Seq<char>, c: char)
    requires
        !has_char(a, c),
    ensures
        pieces(a, c) == seq![a],
    decreases a.len(),
{
    if a.len() == 0 {
        assert(a =~= Seq::<char>::empty());
    } else {
        let t = a.drop_last();
        assert(a[a.len() - 1] != c);
        assert(!has_char(t, c)) by {
            if has_char(t, c) {
                let i = choose|i: int| 0 <= i < t.len() && t[i] == c;
                assert(a[i] == c);
            }
        }
        whole_is_one_piece(t, c);
        assert(t.push(a.last()) =~= a);
        assert(pieces(a, c) =~= seq![a]);
    }
}

/// The notation of an integer that fits 32 bits is read as that integer, with its
/// sign.
pub proof fn signed_numbers_read_back(n: int)
    requires
        -0x8000_0000 <= n <= 0x7fff_ffff,
    ensures
        signed_value(signed_decimal(n)) == Some(n),
{
    if n < 0 {
        let d = text::decimal((-n) as nat);
        text::decimal_denotes((-n) as nat);
        let s = signed_decimal(n);
        assert(s[0] == '-');
        assert(s.skip(1) =~= d);
    } else {
        text::decimal_denotes(n as nat);
        text::decimal_read_back(n as nat, 0x7fff_ffff);
        assert('0' <= text::decimal(n as nat)[0] <= '9');
    }
}

/// Putting a digit behind a number takes its digits one place up; leading zeros
/// and a plus sign do not count, and what holds anything but digits behind the
/// sign is no number.
pub proof fn digits_are_read_in_tens(s: Seq<char>, c: char, max: nat)
    requires
        s.len() > 0,
        s[0] != '+',
    ensures
        '0' <= c <= '9' && unsigned_value(s, max) is Some && 10 * unsigned_value(s, max)->0 + (
        c as int - '0' as int) <= max ==> unsigned_value(s.push(c), max) == Some(
            (10 * unsigned_value(s, max)->0 + (c as int - '0' as int)) as nat,
        ),
        !('0' <= c <= '9') ==> unsigned_value(s.push(c), max) is None,
        unsigned_value(seq!['+'] + s, max) == unsigned_value(s, max),
        unsigned_value(s, max) matches Some(n) ==> n <= max,
{
    let t = s.push(c);
    assert(t[0] == s[0]);
    assert(t.drop_last() =~= s);
    assert(t.last() == c);
    assert((seq!['+'] + s).skip(1) =~= s);
    if !('0' <= c <= '9') {
        assert(t[t.len() - 1] == c);
    } else if unsigned_value(s, max) is Some {
        assert forall|i: int| 0 <= i < t.len() implies '0' <= #[trigger] t[i] <= '9' by {
            if i < s.len() {
                assert(t[i] == s[i]);
            }
        }
    }
}

/// Texts are in the order of the first character in which they differ, and a text
/// stands before those that it begins.
pub proof fn first_differences_decide(
    p: Seq<char>,
    x: char,
    y: char,
    a: Seq<char>,
    b: Seq<char>,
)
    requires
        x < y,
    ensures
        not_after(p + seq![x] + a, p + seq![y] + b),
        !not_after(p + seq![y] + b, p + seq![x] + a),
        not_after(p, p + a),
        a.len() > 0 ==> !not_after(p + a, p),
    decreases p.len(),
{
    let s = p + seq![x] + a;
    let t = p + seq![y] + b;
    if p.len() > 0 {
        let q = p.skip(1);
        first_differences_decide(q, x, y, a, b);
        assert(s.skip(1) =~= q + seq![x] + a);
        assert(t.skip(1) =~= q + seq![y] + b);
        assert((p + a).skip(1) =~= q + a);
    }
}

} // verus!
