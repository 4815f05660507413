//! The tokenizer of a language model, made from the model's file.
//!
//! The file is a sequence of fields, each a key and a value: a number in base
//! 128, four or eight bytes, or a length and as many bytes. Field 1 is a piece of
//! text, field 2 says how texts are cut into pieces, fields 3 and 5 hold the
//! rules by which a text is made uniform before it is cut and after it was put
//! together. Field 2 of such rules is a character map: a length in four bytes, a
//! trie of that length that leads from the bytes of a text to what replaces
//! them, and the replacements.
//!
//! A trie can have a key that ends inside a character, where a text cannot be
//! cut; which texts a tokenizer takes is told here.
use sentencepiece_rs::SentencePieceProcessor;
use vstd::prelude::*;

use crate::text;

verus! {

// ── Fields ──────────────────────────────────────────────────────────────────

/// How many bytes a number has at most.
pub const NUMBER_BYTES: u8 = 10;

/// What numbers of `n` bytes are below.
pub open spec fn limit(n: nat) -> nat
    decreases n,
{
    if n == 0 {
        1
    } else {
        128 * limit((n - 1) as nat)
    }
}

proof fn limits_fit(n: nat)
    requires
        n <= NUMBER_BYTES,
    ensures
        1 <= limit(n) <= 0x40_0000_0000_0000_0000,
{
    reveal_with_fuel(limit, 11);
}

/// The number in base 128 that starts at `at` and has at most `n` bytes, the
/// lowest first, and where it ends. Each byte but the last has its top bit set.
pub open spec fn digits_at(b: Seq<u8>, at: int, n: nat) -> Option<(nat, int)>
    decreases n,
{
    if n == 0 || at < 0 || at >= b.len() {
        None
    } else if b[at] < 128 {
        Some((b[at] as nat, at + 1))
    } else {
        match digits_at(b, at + 1, (n - 1) as nat) {
            Some((high, end)) => Some(((high * 128 + (b[at] - 128)) as nat, end)),
            None => None,
        }
    }
}

fn read_digits(b: &Vec<u8>, at: usize, n: u8) -> (r: Option<(u128, usize)>)
    requires
        n <= NUMBER_BYTES,
    ensures
        match r {
            Some((v, e)) => digits_at(b@, at as int, n as nat) == Some((v as nat, e as int)),
            None => digits_at(b@, at as int, n as nat) is None,
        },
        r matches Some((v, e)) ==> v < limit(n as nat) && at < e <= b@.len(),
    decreases n,
{
    proof {
        limits_fit(n as nat);
    }
    if n == 0 || at >= b.len() {
        return None;
    }
    let low: u8 = b[at];
    if low < 128 {
        proof {
            limits_fit((n - 1) as nat);
        }
        return Some((low as u128, at + 1));
    }
    match read_digits(b, at + 1, n - 1) {
        Some((high, end)) => Some((high * 128 + (low - 128) as u128, end)),
        None => None,
    }
}

/// The number at `at`, as far as 64 bits hold it, and where it ends.
pub open spec fn number_at(b: Seq<u8>, at: int) -> Option<(u64, int)> {
    match digits_at(b, at, NUMBER_BYTES as nat) {
        Some((v, e)) => Some(((v % 0x1_0000_0000_0000_0000) as u64, e)),
        None => None,
    }
}

fn read_number(b: &Vec<u8>, at: usize) -> (r: Option<(u64, usize)>)
    ensures
        match r {
            Some((v, e)) => number_at(b@, at as int) == Some((v, e as int)),
            None => number_at(b@, at as int) is None,
        },
        r matches Some((_, e)) ==> at < e <= b@.len(),
{
    match read_digits(b, at, NUMBER_BYTES) {
        Some((v, e)) => Some(((v % 0x1_0000_0000_0000_0000) as u64, e)),
        None => None,
    }
}

/// What a field holds.
pub enum Datum {
    Number(u64),
    Bytes(Seq<u8>),
    /// Four or eight bytes.
    Fixed,
}

/// The number of the field with a key, as far as 32 bits hold it.
pub open spec fn field_number(key: u64) -> u32 {
    ((key / 8) as int % 0x1_0000_0000) as u32
}

/// The field at `at`, and where it ends; nothing where there is none.
pub open spec fn field_at(b: Seq<u8>, at: int) -> Option<((u32, Datum), int)> {
    match number_at(b, at) {
        None => None,
        Some((key, e)) => {
            let number = field_number(key);
            let kind = key % 8;
            if number == 0 {
                None
            } else if kind == 0 {
                match number_at(b, e) {
                    Some((v, f)) => Some(((number, Datum::Number(v)), f)),
                    None => None,
                }
            } else if kind == 1 && e + 8 <= b.len() {
                Some(((number, Datum::Fixed), e + 8))
            } else if kind == 5 && e + 4 <= b.len() {
                Some(((number, Datum::Fixed), e + 4))
            } else if kind == 2 {
                match number_at(b, e) {
                    Some((n, f)) => if f + n <= b.len() {
                        Some(((number, Datum::Bytes(b.subrange(f, f + n))), f + n))
                    } else {
                        None
                    },
                    None => None,
                }
            } else {
                None
            }
        },
    }
}

/// The fields from `at` on; nothing where what is there are no fields.
pub open spec fn fields_from(b: Seq<u8>, at: int) -> Option<Seq<(u32, Datum)>>
    decreases b.len() - at,
{
    if at >= b.len() {
        Some(Seq::empty())
    } else {
        match field_at(b, at) {
            None => None,
            Some((field, e)) => if at < e <= b.len() {
                match fields_from(b, e) {
                    Some(rest) => Some(seq![field] + rest),
                    None => None,
                }
            } else {
                None
            },
        }
    }
}

/// What a field holds.
enum FieldData {
    Number(u64),
    Bytes(Vec<u8>),
    Fixed,
}

/// A field.
struct Field {
    number: u32,
    data: FieldData,
}

spec fn field_view(f: Field) -> (u32, Datum) {
    (
        f.number,
        match f.data {
            FieldData::Number(n) => Datum::Number(n),
            FieldData::Bytes(b) => Datum::Bytes(b@),
            FieldData::Fixed => Datum::Fixed,
        },
    )
}

spec fn field_views(v: Seq<Field>) -> Seq<(u32, Datum)> {
    v.map_values(|f: Field| field_view(f))
}

fn copy_range(b: &Vec<u8>, from: usize, to: usize) -> (r: Vec<u8>)
    requires
        from <= to <= b@.len(),
    ensures
        r@ == b@.subrange(from as int, to as int),
{
    let mut out: Vec<u8> = Vec::new();
    let mut i: usize = from;
    while i < to
        invariant
            from <= i <= to <= b@.len(),
            out@ == b@.subrange(from as int, i as int),
        decreases to - i,
    {
        out.push(b[i]);
        proof {
            assert(b@.subrange(from as int, i + 1) =~= b@.subrange(from as int, i as int).push(
                b@[i as int],
            ));
        }
        i += 1;
    }
    out
}

fn read_field(b: &Vec<u8>, at: usize) -> (r: Option<(Field, usize)>)
    ensures
        match r {
            Some((f, e)) => field_at(b@, at as int) == Some((field_view(f), e as int)),
            None => field_at(b@, at as int) is None,
        },
        r matches Some((_, e)) ==> at < e <= b@.len(),
{
    let size: usize = b.len();
    let (key, e): (u64, usize) = match read_number(b, at) {
        Some(x) => x,
        None => {
            return None;
        },
    };
    let number: u32 = (key / 8 % 0x1_0000_0000) as u32;
    let kind: u64 = key % 8;
    if number == 0 {
        return None;
    }
    if kind == 0 {
        match read_number(b, e) {
            Some((v, f)) => Some((Field { number, data: FieldData::Number(v) }, f)),
            None => None,
        }
    } else if kind == 1 && 8 <= size - e {
        Some((Field { number, data: FieldData::Fixed }, e + 8))
    } else if kind == 5 && 4 <= size - e {
        Some((Field { number, data: FieldData::Fixed }, e + 4))
    } else if kind == 2 {
        match read_number(b, e) {
            Some((n, f)) => if n <= (size - f) as u64 {
                let to: usize = f + n as usize;
                Some((Field { number, data: FieldData::Bytes(copy_range(b, f, to)) }, to))
            } else {
                None
            },
            None => None,
        }
    } else {
        None
    }
}

fn read_fields(b: &Vec<u8>) -> (r: Option<Vec<Field>>)
    ensures
        match r {
            Some(v) => fields_from(b@, 0) == Some(field_views(v@)),
            None => fields_from(b@, 0) is None,
        },
{
    let size: usize = b.len();
    let mut out: Vec<Field> = Vec::new();
    let mut at: usize = 0;
    proof {
        assert(field_views(out@) =~= Seq::<(u32, Datum)>::empty());
        if let Some(all) = fields_from(b@, 0) {
            assert(field_views(out@) + all =~= all);
        }
    }
    while at < size
        invariant
            size == b@.len(),
            at <= size,
            match fields_from(b@, at as int) {
                Some(rest) => fields_from(b@, 0) == Some(field_views(out@) + rest),
                None => fields_from(b@, 0) is None,
            },
        decreases size - at,
    {
        let ghost before = field_views(out@);
        let ghost here = fields_from(b@, at as int);
        match read_field(b, at) {
            None => {
                return None;
            },
            Some((field, e)) => {
                let ghost view = field_view(field);
                let ghost rest = fields_from(b@, e as int);
                out.push(field);
                proof {
                    assert(field_views(out@) =~= before.push(view));
                    if let Some(r) = rest {
                        assert(here == Some(seq![view] + r));
                        assert(before + (seq![view] + r) =~= before.push(view) + r);
                    }
                }
                at = e;
            },
        }
    }
    proof {
        assert(field_views(out@) + Seq::<(u32, Datum)>::empty() =~= field_views(out@));
    }
    Some(out)
}

/// The bytes in the last field with a number that holds bytes, if there is one.
pub open spec fn last_bytes(fields: Seq<(u32, Datum)>, number: u32) -> Option<Seq<u8>>
    decreases fields.len(),
{
    if fields.len() == 0 {
        None
    } else {
        match fields.last() {
            (k, Datum::Bytes(b)) if k == number => Some(b),
            _ => last_bytes(fields.drop_last(), number),
        }
    }
}

/// The number in the last field with a number that holds one, if there is one.
pub open spec fn last_number(fields: Seq<(u32, Datum)>, number: u32) -> Option<u64>
    decreases fields.len(),
{
    if fields.len() == 0 {
        None
    } else {
        match fields.last() {
            (k, Datum::Number(n)) if k == number => Some(n),
            _ => last_number(fields.drop_last(), number),
        }
    }
}

fn find_bytes(v: &Vec<Field>, number: u32) -> (r: Option<&Vec<u8>>)
    ensures
        last_bytes(field_views(v@), number) == match r {
            Some(b) => Some(b@),
            None => None,
        },
{
    let ghost fs = field_views(v@);
    let mut n: usize = v.len();
    proof {
        assert(fs.take(n as int) =~= fs);
    }
    while n > 0
        invariant
            fs == field_views(v@),
            n <= v@.len(),
            last_bytes(fs.take(n as int), number) == last_bytes(fs, number),
        decreases n,
    {
        proof {
            assert(fs.take(n as int).drop_last() =~= fs.take(n - 1));
            assert(fs.take(n as int).last() == field_view(v@[n - 1]));
        }
        if v[n - 1].number == number {
            if let FieldData::Bytes(b) = &v[n - 1].data {
                return Some(b);
            }
        }
        n -= 1;
    }
    None
}

fn find_number(v: &Vec<Field>, number: u32) -> (r: Option<u64>)
    ensures
        last_number(field_views(v@), number) == r,
{
    let ghost fs = field_views(v@);
    let mut n: usize = v.len();
    proof {
        assert(fs.take(n as int) =~= fs);
    }
    while n > 0
        invariant
            fs == field_views(v@),
            n <= v@.len(),
            last_number(fs.take(n as int), number) == last_number(fs, number),
        decreases n,
    {
        proof {
            assert(fs.take(n as int).drop_last() =~= fs.take(n - 1));
            assert(fs.take(n as int).last() == field_view(v@[n - 1]));
        }
        if v[n - 1].number == number {
            if let FieldData::Number(x) = &v[n - 1].data {
                return Some(*x);
            }
        }
        n -= 1;
    }
    None
}

// ── Pieces ──────────────────────────────────────────────────────────────────

/// The kind of pieces that are taken out of a text before it is made uniform.
pub const USER_DEFINED: u64 = 4;

/// The kind of pieces that are not used.
pub const UNUSED: u64 = 5;

/// Whether bytes are a piece of a kind.
pub open spec fn is_of_kind(piece: Seq<u8>, kind: u64) -> bool {
    fields_from(piece, 0) matches Some(fs) && last_number(fs, 3) matches Some(k) && k % 0x1_0000_0000
        == kind
}

/// The text of a piece, in bytes.
pub open spec fn piece_text(piece: Seq<u8>) -> Seq<u8> {
    match fields_from(piece, 0) {
        Some(fs) => match last_bytes(fs, 1) {
            Some(b) => b,
            None => Seq::empty(),
        },
        None => Seq::empty(),
    }
}

/// The texts of the pieces of a kind, in order.
pub open spec fn pieces_of(fields: Seq<(u32, Datum)>, kind: u64) -> Seq<Seq<u8>>
    decreases fields.len(),
{
    if fields.len() == 0 {
        Seq::empty()
    } else {
        let before = pieces_of(fields.drop_last(), kind);
        match fields.last() {
            (1, Datum::Bytes(b)) if is_of_kind(b, kind) => before.push(piece_text(b)),
            _ => before,
        }
    }
}

/// The bytes of each text.
pub open spec fn byte_views(v: Seq<Vec<u8>>) -> Seq<Seq<u8>> {
    v.map_values(|b: Vec<u8>| b@)
}

fn read_piece(piece: &Vec<u8>, kind: u64) -> (r: Option<Vec<u8>>)
    ensures
        r is Some == is_of_kind(piece@, kind),
        r matches Some(t) ==> t@ == piece_text(piece@),
{
    match read_fields(piece) {
        None => None,
        Some(fs) => match find_number(&fs, 3) {
            Some(k) => if k % 0x1_0000_0000 == kind {
                match find_bytes(&fs, 1) {
                    Some(b) => Some(copy_range(b, 0, b.len())),
                    None => Some(Vec::new()),
                }
            } else {
                None
            },
            None => None,
        },
    }
}

fn read_pieces(v: &Vec<Field>, kind: u64) -> (r: Vec<Vec<u8>>)
    ensures
        byte_views(r@) == pieces_of(field_views(v@), kind),
{
    let ghost fs = field_views(v@);
    let mut out: Vec<Vec<u8>> = Vec::new();
    let mut i: usize = 0;
    proof {
        assert(fs.take(0) =~= Seq::<(u32, Datum)>::empty());
        assert(byte_views(out@) =~= pieces_of(fs.take(0), kind));
    }
    while i < v.len()
        invariant
            fs == field_views(v@),
            i <= v@.len(),
            byte_views(out@) == pieces_of(fs.take(i as int), kind),
        decreases v@.len() - i,
    {
        let ghost before = byte_views(out@);
        proof {
            assert(fs.take(i + 1).drop_last() =~= fs.take(i as int));
            assert(fs.take(i + 1).last() == field_view(v@[i as int]));
        }
        if v[i].number == 1 {
            if let FieldData::Bytes(b) = &v[i].data {
                if let Some(t) = read_piece(b, kind) {
                    out.push(t);
                    proof {
                        assert(byte_views(out@) =~= before.push(piece_text(b@)));
                    }
                }
            }
        }
        i += 1;
    }
    proof {
        assert(fs.take(i as int) =~= fs);
    }
    out
}

// ── Tries ───────────────────────────────────────────────────────────────────

/// The four bytes from `at` on as a number, the lowest first.
pub open spec fn word_at(b: Seq<u8>, at: int) -> u32 {
    (b[at] + 0x100 * b[at + 1] + 0x1_0000 * b[at + 2] + 0x100_0000 * b[at + 3]) as u32
}

fn read_word(b: &Vec<u8>, at: usize) -> (r: u32)
    requires
        at + 4 <= b.len(),
    ensures
        r == word_at(b@, at as int),
{
    let first: u32 = b[at] as u32;
    let second: u32 = b[at + 1] as u32;
    let third: u32 = b[at + 2] as u32;
    let fourth: u32 = b[at + 3] as u32;
    first + 0x100 * second + 0x1_0000 * third + 0x100_0000 * fourth
}

/// How many nodes a trie has.
pub open spec fn node_count(trie: Seq<u8>) -> nat {
    trie.len() / 4
}

/// Whether a key ends at a node.
pub open spec fn ends_key(node: u32) -> bool {
    (node >> 8) & 1 == 1
}

/// The byte that leads to a node, in the low bits; a number above all bytes where
/// none does.
pub open spec fn node_label(node: u32) -> u32 {
    node & 0x8000_00ff
}

/// How far a node's children are.
pub open spec fn node_offset(node: u32) -> u32 {
    (node >> 10) << ((node & 0x200) >> 6)
}

/// Where a byte leads to from the node at `i`.
pub open spec fn child(trie: Seq<u8>, i: u32, byte: u8) -> Option<u32> {
    let at = i ^ node_offset(word_at(trie, 4 * i)) ^ byte as u32;
    if at < node_count(trie) && node_label(word_at(trie, 4 * at)) == byte as u32 {
        Some(at)
    } else {
        None
    }
}

fn read_child(trie: &Vec<u8>, i: u32, byte: u8) -> (r: Option<u32>)
    requires
        i < node_count(trie@),
        trie@.len() <= u32::MAX,
    ensures
        r == child(trie@, i, byte),
        r matches Some(p) ==> p < node_count(trie@),
{
    let node: u32 = read_word(trie, 4 * i as usize);
    assert((node & 0x200u32) >> 6u32 <= 8u32) by (bit_vector);
    let offset: u32 = (node >> 10) << ((node & 0x200) >> 6);
    let at: u32 = i ^ offset ^ byte as u32;
    if (at as usize) < trie.len() / 4 && read_word(trie, 4 * at as usize) & 0x8000_00ff
        == byte as u32 {
        Some(at)
    } else {
        None
    }
}

/// The node that a key leads to, if the trie knows it.
pub open spec fn reached(trie: Seq<u8>, key: Seq<u8>) -> Option<u32>
    decreases key.len(),
{
    if node_count(trie) == 0 {
        None
    } else if key.len() == 0 {
        Some(0)
    } else {
        match reached(trie, key.drop_last()) {
            Some(i) => child(trie, i, key.last()),
            None => None,
        }
    }
}

/// How many bytes the last character of a text lacks after one byte more, where
/// it lacked `lacking` before; nothing where the byte cannot stand there.
pub open spec fn lacking_after(lacking: u8, byte: u8) -> Option<u8> {
    if lacking > 0 {
        if 0x80 <= byte < 0xc0 {
            Some((lacking - 1) as u8)
        } else {
            None
        }
    } else if byte < 0x80 {
        Some(0)
    } else if 0xc0 <= byte < 0xe0 {
        Some(1)
    } else if 0xe0 <= byte < 0xf0 {
        Some(2)
    } else if 0xf0 <= byte < 0xf8 {
        Some(3)
    } else {
        None
    }
}

fn step(lacking: u8, byte: u8) -> (r: Option<u8>)
    requires
        lacking <= 3,
    ensures
        r == lacking_after(lacking, byte),
        r matches Some(n) ==> n <= 3,
{
    if lacking > 0 {
        if 0x80 <= byte && byte < 0xc0 {
            Some(lacking - 1)
        } else {
            None
        }
    } else if byte < 0x80 {
        Some(0)
    } else if 0xc0 <= byte && byte < 0xe0 {
        Some(1)
    } else if 0xe0 <= byte && byte < 0xf0 {
        Some(2)
    } else if 0xf0 <= byte && byte < 0xf8 {
        Some(3)
    } else {
        None
    }
}

/// How many bytes the last character of a text that begins with `key` lacks after
/// it; nothing where no text begins so.
pub open spec fn lacking(key: Seq<u8>) -> Option<u8>
    decreases key.len(),
{
    if key.len() == 0 {
        Some(0)
    } else {
        match lacking(key.drop_last()) {
            Some(n) => lacking_after(n, key.last()),
            None => None,
        }
    }
}

/// Whether a key of the trie ends inside a character.
pub open spec fn is_cut_key(trie: Seq<u8>, key: Seq<u8>) -> bool {
    &&& key.len() > 0
    &&& reached(trie, key) matches Some(i) && ends_key(word_at(trie, 4 * i))
    &&& lacking(key) matches Some(n) && n > 0
}

/// Whether no key of the trie ends inside a character.
pub open spec fn keys_are_whole(trie: Seq<u8>) -> bool {
    forall|key: Seq<u8>| !#[trigger] is_cut_key(trie, key)
}

/// Whether a key leads to the node at `i`, with `n` bytes lacking.
spec fn leads_to(trie: Seq<u8>, key: Seq<u8>, i: u32, n: u8) -> bool {
    reached(trie, key) == Some(i) && lacking(key) == Some(n)
}

/// Where the node at `i` with `n` bytes lacking is noted.
spec fn note_of(i: u32, n: u8) -> int {
    4 * i + n
}

/// Whether the children of a node are all noted, and none is cut.
spec fn is_closed(trie: Seq<u8>, noted: Seq<bool>, i: u32, n: u8) -> bool {
    forall|byte: u8|
        #![trigger child(trie, i, byte)]
        child(trie, i, byte) is Some && lacking_after(n, byte) is Some ==> {
            let p = child(trie, i, byte)->0;
            let m = lacking_after(n, byte)->0;
            noted[note_of(p, m)] && (m > 0 ==> !ends_key(word_at(trie, 4 * p)))
        }
}

/// How many notes are not made yet.
spec fn open_notes(noted: Seq<bool>) -> nat
    decreases noted.len(),
{
    if noted.len() == 0 {
        0
    } else {
        open_notes(noted.drop_last()) + if noted.last() {
            0nat
        } else {
            1nat
        }
    }
}

proof fn noting_closes(noted: Seq<bool>, k: int)
    requires
        0 <= k < noted.len(),
        !noted[k],
    ensures
        open_notes(noted.update(k, true)) + 1 == open_notes(noted),
    decreases noted.len(),
{
    let after = noted.update(k, true);
    if k == noted.len() - 1 {
        assert(after.drop_last() =~= noted.drop_last());
    } else {
        assert(after.drop_last() =~= noted.drop_last().update(k, true));
        noting_closes(noted.drop_last(), k);
    }
}

/// Once all that is noted is closed, every key leads to a node that is noted.
proof fn notes_cover(trie: Seq<u8>, noted: Seq<bool>, key: Seq<u8>)
    requires
        node_count(trie) > 0,
        noted.len() == 4 * node_count(trie),
        noted[0],
        forall|i: u32, n: u8|
            #![trigger note_of(i, n)]
            i < node_count(trie) && n <= 3 && noted[note_of(i, n)] ==> is_closed(trie, noted, i, n),
        reached(trie, key) is Some,
        lacking(key) is Some,
    ensures
        reached(trie, key)->0 < node_count(trie),
        lacking(key)->0 <= 3,
        noted[note_of(reached(trie, key)->0, lacking(key)->0)],
        !is_cut_key(trie, key),
    decreases key.len(),
{
    if key.len() > 0 {
        let t = key.drop_last();
        notes_cover(trie, noted, t);
        let i = reached(trie, t)->0;
        let n = lacking(t)->0;
        assert(is_closed(trie, noted, i, n));
        assert(child(trie, i, key.last()) is Some);
    }
}

/// Whether no key of a trie ends inside a character: goes through the nodes that
/// beginnings of texts lead to, each with the bytes that the last character lacks.
fn has_whole_keys(trie: &Vec<u8>) -> (r: bool)
    requires
        trie@.len() <= u32::MAX,
    ensures
        r == keys_are_whole(trie@),
{
    let count: usize = trie.len() / 4;
    if count == 0 {
        return true;
    }
    let mut noted: Vec<bool> = Vec::new();
    while noted.len() < 4 * count
        invariant
            count == node_count(trie@),
            trie@.len() <= u32::MAX,
            noted@.len() <= 4 * count,
            forall|k: int| 0 <= k < noted@.len() ==> !#[trigger] noted@[k],
        decreases 4 * count - noted@.len(),
    {
        noted.push(false);
    }
    noted.set(0, true);
    let mut todo: Vec<(u32, u8)> = Vec::new();
    todo.push((0, 0));
    proof {
        assert(leads_to(trie@, Seq::empty(), 0, 0));
        assert(todo@[0] == (0u32, 0u8));
        assert forall|i: u32, n: u8|
            #![trigger note_of(i, n)]
            i < count && n <= 3 && noted@[note_of(i, n)] implies i == 0 && n == 0 by {
            assert(note_of(i, n) == 0);
        }
    }
    while todo.len() > 0
        invariant
            count == node_count(trie@),
            count > 0,
            trie@.len() <= u32::MAX,
            noted@.len() == 4 * count,
            noted@[0],
            forall|k: int|
                0 <= k < todo@.len() ==> (#[trigger] todo@[k]).0 < count && todo@[k].1 <= 3
                    && noted@[note_of(todo@[k].0, todo@[k].1)],
            forall|i: u32, n: u8|
                #![trigger note_of(i, n)]
                i < count && n <= 3 && noted@[note_of(i, n)] ==> exists|key: Seq<u8>| #[trigger]
                    leads_to(trie@, key, i, n),
            forall|i: u32, n: u8|
                #![trigger note_of(i, n)]
                i < count && n <= 3 && noted@[note_of(i, n)] ==> is_closed(trie@, noted@, i, n)
                    || todo@.contains((i, n)),
        decreases open_notes(noted@), todo@.len(),
    {
        let ghost before = todo@;
        let ghost notes = noted@;
        let (i, n): (u32, u8) = match todo.pop() {
            Some(x) => x,
            None => {
                return true;
            },
        };
        proof {
            assert(before.last() == (i, n));
            assert(before[before.len() - 1] == (i, n));
            assert(noted@[note_of(i, n)]);
            assert forall|j: u32, m: u8|
                #![trigger note_of(j, m)]
                j < count && m <= 3 && noted@[note_of(j, m)] && !((j, m) == (i, n)) implies is_closed(
                trie@,
                noted@,
                j,
                m,
            ) || todo@.contains((j, m)) by {
                if before.contains((j, m)) {
                    let k = choose|k: int| 0 <= k < before.len() && before[k] == (j, m);
                    assert(todo@[k] == (j, m));
                }
            }
            assert forall|k: int| 0 <= k < todo@.len() implies (#[trigger] todo@[k]).0 < count
                && todo@[k].1 <= 3 && noted@[note_of(todo@[k].0, todo@[k].1)] by {
                assert(todo@[k] == before[k]);
            }
        }
        let mut byte: u8 = 0;
        let mut last: bool = false;
        while !last
            invariant
                count == node_count(trie@),
                count > 0,
                trie@.len() <= u32::MAX,
                noted@.len() == 4 * count,
                noted@[0],
                i < count,
                n <= 3,
                noted@[note_of(i, n)],
                before.len() > 0,
                open_notes(noted@) <= open_notes(notes),
                open_notes(noted@) == open_notes(notes) ==> todo@.len() == before.len() - 1,
                last ==> byte == 255,
                forall|k: int|
                    0 <= k < todo@.len() ==> (#[trigger] todo@[k]).0 < count && todo@[k].1 <= 3
                        && noted@[note_of(todo@[k].0, todo@[k].1)],
                forall|j: u32, m: u8|
                    #![trigger note_of(j, m)]
                    j < count && m <= 3 && noted@[note_of(j, m)] ==> exists|key: Seq<u8>| #[trigger]
                        leads_to(trie@, key, j, m),
                forall|j: u32, m: u8|
                    #![trigger note_of(j, m)]
                    j < count && m <= 3 && noted@[note_of(j, m)] && !((j, m) == (i, n))
                        ==> is_closed(trie@, noted@, j, m) || todo@.contains((j, m)),
                forall|b: u8|
                    #![trigger child(trie@, i, b)]
                    (b < byte || last) && child(trie@, i, b) is Some && lacking_after(n, b) is Some
                        ==> {
                        let p = child(trie@, i, b)->0;
                        let m = lacking_after(n, b)->0;
                        noted@[note_of(p, m)] && (m > 0 ==> !ends_key(word_at(trie@, 4 * p)))
                    },
            decreases
                    if last {
                        0
                    } else {
                        256 - byte
                    },
        {
            if let (Some(p), Some(m)) = (read_child(trie, i, byte), step(n, byte)) {
                let ghost key = choose|key: Seq<u8>| #[trigger] leads_to(trie@, key, i, n);
                let ghost longer = key.push(byte);
                proof {
                    assert(longer.drop_last() =~= key);
                    assert(leads_to(trie@, longer, p, m));
                }
                let node: u32 = read_word(trie, 4 * p as usize);
                if m > 0 && (node >> 8) & 1 == 1 {
                    proof {
                        assert(is_cut_key(trie@, longer));
                    }
                    return false;
                }
                let k: usize = 4 * p as usize + m as usize;
                if !noted[k] {
                    let ghost old_notes = noted@;
                    let ghost old_todo = todo@;
                    noted.set(k, true);
                    todo.push((p, m));
                    proof {
                        noting_closes(old_notes, k as int);
                        assert(todo@[old_todo.len() as int] == (p, m));
                        assert forall|j: u32, q: u8|
                            #![trigger note_of(j, q)]
                            j < count && q <= 3 && noted@[note_of(j, q)] implies exists|
                            key: Seq<u8>,
                        | #[trigger] leads_to(trie@, key, j, q) by {
                            if note_of(j, q) == k {
                                assert(j == p && q == m);
                            } else {
                                assert(old_notes[note_of(j, q)]);
                            }
                        }
                        assert forall|j: u32, q: u8|
                            #![trigger note_of(j, q)]
                            j < count && q <= 3 && noted@[note_of(j, q)] && !((j, q) == (i, n)) implies is_closed(
                            trie@,
                            noted@,
                            j,
                            q,
                        ) || todo@.contains((j, q)) by {
                            if note_of(j, q) == k {
                                assert(j == p && q == m);
                                assert(todo@.contains((p, m)));
                            } else {
                                assert(old_notes[note_of(j, q)]);
                                if old_todo.contains((j, q)) {
                                    let x = choose|x: int|
                                        0 <= x < old_todo.len() && old_todo[x] == (j, q);
                                    assert(todo@[x] == (j, q));
                                } else {
                                    assert(is_closed(trie@, old_notes, j, q));
                                    children_within(trie@, j, q);
                                }
                            }
                        }
                    }
                }
            }
            if byte == 255 {
                last = true;
            } else {
                byte += 1;
            }
        }
        proof {
            assert(is_closed(trie@, noted@, i, n));
        }
    }
    proof {
        assert forall|key: Seq<u8>| !#[trigger] is_cut_key(trie@, key) by {
            if is_cut_key(trie@, key) {
                notes_cover(trie@, noted@, key);
            }
        }
    }
    true
}

/// The notes of a node's children are within the list.
proof fn children_within(trie: Seq<u8>, i: u32, n: u8)
    requires
        n <= 3,
    ensures
        forall|byte: u8|
            #![trigger child(trie, i, byte)]
            child(trie, i, byte) is Some && lacking_after(n, byte) is Some ==> 0 <= note_of(
                child(trie, i, byte)->0,
                lacking_after(n, byte)->0,
            ) < 4 * node_count(trie),
{
}

// ── Character maps ──────────────────────────────────────────────────────────

/// The trie of a character map: as long as the map's first four bytes say.
pub open spec fn trie_of(map: Seq<u8>) -> Seq<u8> {
    if map.len() < 4 || 4 + word_at(map, 0) > map.len() {
        Seq::empty()
    } else {
        map.subrange(4, 4 + word_at(map, 0))
    }
}

/// How many bytes of replacements a character map has.
pub open spec fn tail_len(map: Seq<u8>) -> int {
    map.len() - 4 - trie_of(map).len()
}

/// Whether a character map ends before its trie does, though the trie is not
/// longer than the map as a whole.
pub open spec fn is_short(map: Seq<u8>) -> bool {
    &&& map.len() > 4
    &&& 1024 <= word_at(map, 0) < map.len()
    &&& word_at(map, 0) % 1024 == 0
    &&& 4 + word_at(map, 0) > map.len()
}

/// The character map of the rules in a field of a model; empty where there is
/// none.
pub open spec fn map_in(model: Seq<u8>, field: u32) -> Seq<u8> {
    match fields_from(model, 0) {
        Some(fs) => match last_bytes(fs, field) {
            Some(rules) => match fields_from(rules, 0) {
                Some(inner) => match last_bytes(inner, 2) {
                    Some(map) => map,
                    None => Seq::empty(),
                },
                None => Seq::empty(),
            },
            None => Seq::empty(),
        },
        None => Seq::empty(),
    }
}

fn read_map(model: &Vec<Field>, field: u32) -> (r: Vec<u8>)
    ensures
        forall|b: Seq<u8>|
            fields_from(b, 0) == Some(field_views(model@)) ==> r@ == #[trigger] map_in(b, field),
{
    match find_bytes(model, field) {
        Some(rules) => match read_fields(rules) {
            Some(inner) => match find_bytes(&inner, 2) {
                Some(map) => copy_range(map, 0, map.len()),
                None => Vec::new(),
            },
            None => Vec::new(),
        },
        None => Vec::new(),
    }
}

/// A character map, cut into its parts.
struct CharMap {
    trie: Vec<u8>,
    /// How many bytes of replacements there are.
    tail: usize,
}

impl CharMap {
    spec fn is_of(&self, map: Seq<u8>) -> bool {
        &&& self.trie@ == trie_of(map)
        &&& self.trie@.len() <= u32::MAX
        &&& self.trie@.len() > 0 ==> self.tail == tail_len(map)
    }
}

fn cut_map(map: &Vec<u8>) -> (r: CharMap)
    ensures
        r.is_of(map@),
{
    if map.len() < 4 {
        return CharMap { trie: Vec::new(), tail: 0 };
    }
    let size: u32 = read_word(map, 0);
    if size as usize > map.len() - 4 {
        return CharMap { trie: Vec::new(), tail: 0 };
    }
    CharMap {
        trie: copy_range(map, 4, 4 + size as usize),
        tail: map.len() - 4 - size as usize,
    }
}

fn map_is_short(map: &Vec<u8>) -> (r: bool)
    ensures
        r == is_short(map@),
{
    if map.len() <= 4 {
        return false;
    }
    let size: u32 = read_word(map, 0);
    1024 <= size && (size as usize) < map.len() && size % 1024 == 0 && size as usize > map.len() - 4
}

// ── How a text is gone through ──────────────────────────────────────────────

/// Where the replacement for a key that ends at a node begins, if the trie says.
pub open spec fn replacement(trie: Seq<u8>, i: u32) -> Option<u32> {
    let node = word_at(trie, 4 * i);
    let at = i ^ node_offset(node);
    if ends_key(node) && at < node_count(trie) {
        Some(word_at(trie, 4 * at) & 0x7fff_ffff)
    } else {
        None
    }
}

/// The longest key that a text begins with and its replacement, where the first
/// `k` bytes lead to the node at `i`, and `found` was found so far.
pub open spec fn longest_from(
    trie: Seq<u8>,
    t: Seq<u8>,
    i: u32,
    k: nat,
    found: Option<(nat, u32)>,
) -> Option<(nat, u32)>
    decreases t.len() - k,
{
    if k >= t.len() {
        found
    } else {
        match child(trie, i, t[k as int]) {
            None => found,
            Some(p) => longest_from(
                trie,
                t,
                p,
                k + 1,
                match replacement(trie, p) {
                    Some(at) => Some((k + 1, at)),
                    None => found,
                },
            ),
        }
    }
}

/// The length of the longest of some texts that a text begins with; zero where
/// it begins with none.
pub open spec fn longest_prefix(v: Seq<Seq<u8>>, t: Seq<u8>) -> nat
    decreases v.len(),
{
    if v.len() == 0 {
        0
    } else {
        let before = longest_prefix(v.drop_last(), t);
        if v.last().is_prefix_of(t) && v.last().len() > before {
            v.last().len()
        } else {
            before
        }
    }
}

/// How many bytes a character has, by its first byte.
pub open spec fn char_len(first: u8) -> nat {
    if first < 0x80 {
        1
    } else if first < 0xe0 {
        2
    } else if first < 0xf0 {
        3
    } else {
        4
    }
}

/// How many bytes at the start of a text are replaced at once: a piece that is
/// taken out, else the longest key of the map whose replacement is there, else a
/// character.
pub open spec fn taken_at(symbols: Seq<Seq<u8>>, map: Seq<u8>, t: Seq<u8>) -> nat {
    let symbol = longest_prefix(symbols, t);
    if symbol > 0 {
        symbol
    } else if node_count(trie_of(map)) == 0 {
        char_len(t[0])
    } else {
        match longest_from(trie_of(map), t, 0, 0, None) {
            Some((n, at)) => if at < tail_len(map) {
                n
            } else {
                char_len(t[0])
            },
            None => char_len(t[0]),
        }
    }
}

/// Whether a text is cut between characters only, where it is gone through from
/// its start.
pub open spec fn is_gone_through(symbols: Seq<Seq<u8>>, map: Seq<u8>, t: Seq<u8>) -> bool
    decreases t.len(),
{
    if t.len() == 0 {
        true
    } else if 0x80 <= t[0] < 0xc0 {
        false
    } else {
        let n = taken_at(symbols, map, t);
        n == 0 || n > t.len() || is_gone_through(symbols, map, t.skip(n as int))
    }
}

fn begins_with(t: &Vec<u8>, from: usize, p: &Vec<u8>) -> (r: bool)
    requires
        from <= t@.len(),
    ensures
        r == p@.is_prefix_of(t@.skip(from as int)),
{
    if p.len() > t.len() - from {
        return false;
    }
    let mut i: usize = 0;
    while i < p.len()
        invariant
            from + p@.len() <= t.len(),
            i <= p@.len(),
            forall|j: int| 0 <= j < i ==> p@[j] == #[trigger] t@.skip(from as int)[j],
        decreases p@.len() - i,
    {
        if p[i] != t[from + i] {
            proof {
                assert(p@[i as int] != t@.skip(from as int)[i as int]);
                assert(p@.is_prefix_of(t@.skip(from as int)) ==> p@[i as int] == t@.skip(
                    from as int,
                ).subrange(0, p@.len() as int)[i as int]);
            }
            return false;
        }
        i += 1;
    }
    proof {
        assert(p@ =~= t@.skip(from as int).subrange(0, p@.len() as int));
    }
    true
}

fn find_longest_prefix(v: &Vec<Vec<u8>>, t: &Vec<u8>, from: usize) -> (r: usize)
    requires
        from <= t@.len(),
    ensures
        r == longest_prefix(byte_views(v@), t@.skip(from as int)),
        r <= t@.len() - from,
{
    let ghost vs = byte_views(v@);
    let ghost rest = t@.skip(from as int);
    let mut best: usize = 0;
    let mut i: usize = 0;
    proof {
        assert(vs.take(0) =~= Seq::<Seq<u8>>::empty());
    }
    while i < v.len()
        invariant
            vs == byte_views(v@),
            from <= t@.len(),
            rest == t@.skip(from as int),
            i <= v@.len(),
            best == longest_prefix(vs.take(i as int), rest),
            best <= rest.len(),
        decreases v@.len() - i,
    {
        proof {
            assert(vs.take(i + 1).drop_last() =~= vs.take(i as int));
            assert(vs.take(i + 1).last() == v@[i as int]@);
        }
        if v[i].len() > best && begins_with(t, from, &v[i]) {
            best = v[i].len();
        }
        i += 1;
    }
    proof {
        assert(vs.take(i as int) =~= vs);
    }
    best
}

fn find_longest(trie: &Vec<u8>, t: &Vec<u8>, from: usize) -> (r: Option<(usize, u32)>)
    requires
        from <= t@.len(),
        trie@.len() <= u32::MAX,
        node_count(trie@) > 0,
    ensures
        longest_from(trie@, t@.skip(from as int), 0, 0, None) == match r {
            Some((n, at)) => Some((n as nat, at)),
            None => None,
        },
        r matches Some((n, _)) ==> 0 < n <= t@.len() - from,
{
    let ghost rest = t@.skip(from as int);
    let size: usize = t.len() - from;
    let mut found: Option<(usize, u32)> = None;
    let mut i: u32 = 0;
    let mut k: usize = 0;
    while k < size
        invariant
            from <= t@.len(),
            size == t.len() - from,
            rest == t@.skip(from as int),
            k <= size,
            trie@.len() <= u32::MAX,
            i < node_count(trie@),
            found matches Some((n, _)) ==> 0 < n <= size,
            longest_from(trie@, rest, 0, 0, None) == longest_from(
                trie@,
                rest,
                i,
                k as nat,
                match found {
                    Some((n, at)) => Some((n as nat, at)),
                    None => None,
                },
            ),
        decreases size - k,
    {
        match read_child(trie, i, t[from + k]) {
            None => {
                return found;
            },
            Some(p) => {
                let node: u32 = read_word(trie, 4 * p as usize);
                assert((node & 0x200u32) >> 6u32 <= 8u32) by (bit_vector);
                let at: u32 = p ^ ((node >> 10) << ((node & 0x200) >> 6));
                if (node >> 8) & 1 == 1 && (at as usize) < trie.len() / 4 {
                    found = Some((k + 1, read_word(trie, 4 * at as usize) & 0x7fff_ffff));
                }
                i = p;
                k += 1;
            },
        }
    }
    found
}

fn first_char_len(first: u8) -> (r: usize)
    ensures
        r == char_len(first),
{
    if first < 0x80 {
        1
    } else if first < 0xe0 {
        2
    } else if first < 0xf0 {
        3
    } else {
        4
    }
}

fn take_at(
    symbols: &Vec<Vec<u8>>,
    map: &CharMap,
    Ghost(whole): Ghost<Seq<u8>>,
    t: &Vec<u8>,
    from: usize,
) -> (r: usize)
    requires
        from < t@.len(),
        map.is_of(whole),
    ensures
        r == taken_at(byte_views(symbols@), whole, t@.skip(from as int)),
{
    let symbol: usize = find_longest_prefix(symbols, t, from);
    if symbol > 0 {
        return symbol;
    }
    if map.trie.len() / 4 == 0 {
        return first_char_len(t[from]);
    }
    match find_longest(&map.trie, t, from) {
        Some((n, at)) => if (at as usize) < map.tail {
            n
        } else {
            first_char_len(t[from])
        },
        None => first_char_len(t[from]),
    }
}

fn goes_through(
    symbols: &Vec<Vec<u8>>,
    map: &CharMap,
    Ghost(whole): Ghost<Seq<u8>>,
    t: &Vec<u8>,
) -> (r: bool)
    requires
        map.is_of(whole),
    ensures
        r == is_gone_through(byte_views(symbols@), whole, t@),
{
    let ghost vs = byte_views(symbols@);
    let size: usize = t.len();
    let mut at: usize = 0;
    proof {
        assert(t@.skip(0) =~= t@);
    }
    while at < size
        invariant
            map.is_of(whole),
            vs == byte_views(symbols@),
            size == t@.len(),
            at <= size,
            is_gone_through(vs, whole, t@) == is_gone_through(vs, whole, t@.skip(at as int)),
        decreases size - at,
    {
        if 0x80 <= t[at] && t[at] < 0xc0 {
            return false;
        }
        let n: usize = take_at(symbols, map, Ghost(whole), t, at);
        if n == 0 || n > size - at {
            return true;
        }
        proof {
            assert(t@.skip(at as int).skip(n as int) =~= t@.skip(at + n));
        }
        at += n;
    }
    true
}

// ── The tokenizer ───────────────────────────────────────────────────────────

/// The tokenizer of `sentencepiece_rs`, carried through.
#[verifier::external_type_specification]
#[verifier::external_body]
pub struct ExSentencePieceProcessor(SentencePieceProcessor);

/// The file that a tokenizer was made from.
pub uninterp spec fn source(sp: SentencePieceProcessor) -> Seq<u8>;

/// Whether `sentencepiece_rs` makes a tokenizer from a file.
pub uninterp spec fn is_model(model: Seq<u8>) -> bool;

/// What `sentencepiece_rs` makes of a text before it cuts it into pieces; nothing
/// where it fails.
pub uninterp spec fn normalized(model: Seq<u8>, text: Seq<char>) -> Option<Seq<char>>;

/// The ids that `sentencepiece_rs` cuts a text into by a model; nothing where it
/// fails.
pub uninterp spec fn encoded(model: Seq<u8>, text: Seq<char>) -> Option<Seq<usize>>;

/// The text that `sentencepiece_rs` puts together from ids by a model; nothing
/// where it fails.
pub uninterp spec fn decoded(model: Seq<u8>, ids: Seq<usize>) -> Option<Seq<char>>;

/// Whether a character map of a model is shorter than its trie.
pub open spec fn has_short_map(model: Seq<u8>) -> bool {
    is_short(map_in(model, 3)) || is_short(map_in(model, 5))
}

/// The pieces of a kind in a model.
pub open spec fn model_pieces(model: Seq<u8>, kind: u64) -> Seq<Seq<u8>> {
    match fields_from(model, 0) {
        Some(fs) => pieces_of(fs, kind),
        None => Seq::empty(),
    }
}

/// Whether a model merges pairs of pieces: field 3 of its field 2.
pub open spec fn merges(model: Seq<u8>) -> bool {
    fields_from(model, 0) matches Some(fs) && last_bytes(fs, 2) matches Some(trainer)
        && fields_from(trainer, 0) matches Some(inner) && last_number(inner, 3) matches Some(k) && k
        % 0x1_0000_0000 == 2
}

/// Whether a text is made uniform without a cut inside a character.
pub open spec fn can_normalize(model: Seq<u8>, text: Seq<char>) -> bool {
    is_gone_through(
        model_pieces(model, USER_DEFINED),
        map_in(model, 3),
        vstd::utf8::encode_utf8(text),
    )
}

/// Whether a text holds one of some pieces.
pub open spec fn holds_piece(t: Seq<u8>, pieces: Seq<Seq<u8>>) -> bool {
    exists|k: int, i: int|
        0 <= k < pieces.len() && 0 <= i <= t.len() && #[trigger] pieces[k].is_prefix_of(
            #[trigger] t.skip(i),
        )
}

/// Whether a text can be cut into pieces: it is made uniform without a cut inside
/// a character, and where pairs of pieces are merged, none of the unused ones
/// occurs in it, which would be taken apart again, perhaps without end.
pub open spec fn can_encode(model: Seq<u8>, text: Seq<char>) -> bool {
    &&& can_normalize(model, text)
    &&& merges(model) && normalized(model, text) is Some ==> !holds_piece(
        vstd::utf8::encode_utf8(normalized(model, text)->0),
        model_pieces(model, UNUSED),
    )
}

/// Whether every text that is put together is made uniform without a cut inside a
/// character.
pub open spec fn can_decode(model: Seq<u8>) -> bool {
    keys_are_whole(trie_of(map_in(model, 5)))
}

/// `SentencePieceProcessor::from_serialized_model`: the tokenizer of a file, which
/// remembers what it was made from, or why there is none. It cuts the trie out of
/// a character map without a look at whether the map is that long. The words of a
/// refusal are left open.
#[verifier::external_body]
fn load(model: &Vec<u8>) -> (r: Result<SentencePieceProcessor, String>)
    requires
        !has_short_map(model@),
    ensures
        r is Ok == is_model(model@),
        r matches Ok(sp) ==> source(sp) == model@,
{
    SentencePieceProcessor::from_serialized_model(model).map_err(|e| e.to_string())
}

/// `SentencePieceProcessor::normalize`: the result depends on the tokenizer and
/// the text alone. It goes through the text as `is_gone_through` says, and cuts it
/// where it gets to.
#[verifier::external_body]
fn normalize(sp: &SentencePieceProcessor, text: &str) -> (r: Option<String>)
    requires
        can_normalize(source(*sp), text@),
    ensures
        normalized(source(*sp), text@) == text::opt_view(r),
{
    sp.normalize(text).ok()
}

/// `SentencePieceProcessor::encode_to_ids`: the result depends on the tokenizer
/// and the text alone. The text is made uniform first. Pairs that are merged into
/// an unused piece are taken apart again until no part is unused, which need not
/// come to an end.
#[verifier::external_body]
fn encode_to_ids(sp: &SentencePieceProcessor, text: &str) -> (r: Option<Vec<usize>>)
    requires
        can_encode(source(*sp), text@),
    ensures
        encoded(source(*sp), text@) == match r {
            Some(v) => Some(v@),
            None => None::<Seq<usize>>,
        },
{
    sp.encode_to_ids(text).ok()
}

/// `SentencePieceProcessor::decode_ids`: the result depends on the tokenizer and
/// the ids alone. The text is made uniform at the end, and cut where a key of the
/// character map ends.
#[verifier::external_body]
fn decode_ids(sp: &SentencePieceProcessor, ids: &Vec<usize>) -> (r: Option<String>)
    requires
        can_decode(source(*sp)),
    ensures
        decoded(source(*sp), ids@) == text::opt_view(r),
{
    sp.decode_ids(ids).ok()
}

/// Why no tokenizer is made from a file.
pub enum TokenizerError {
    /// A character map is shorter than its trie.
    ShortMap,
    /// The file is no model; holds the words of `sentencepiece_rs`.
    NoModel(String),
}

/// What a model's file says of the texts that its tokenizer takes.
struct Rules {
    symbols: Vec<Vec<u8>>,
    unused: Vec<Vec<u8>>,
    map: CharMap,
    merges: bool,
    decodes: bool,
}

impl Rules {
    spec fn are_of(&self, model: Seq<u8>) -> bool {
        &&& byte_views(self.symbols@) == model_pieces(model, USER_DEFINED)
        &&& byte_views(self.unused@) == model_pieces(model, UNUSED)
        &&& self.map.is_of(map_in(model, 3))
        &&& self.merges == merges(model)
        &&& self.decodes == can_decode(model)
    }
}

fn model_merges(fs: &Vec<Field>) -> (r: bool)
    ensures
        forall|b: Seq<u8>|
            fields_from(b, 0) == Some(field_views(fs@)) ==> r == #[trigger] merges(b),
{
    match find_bytes(fs, 2) {
        Some(trainer) => match read_fields(trainer) {
            Some(inner) => match find_number(&inner, 3) {
                Some(k) => k % 0x1_0000_0000 == 2,
                None => false,
            },
            None => false,
        },
        None => false,
    }
}

/// What a model's file says of its texts; nothing where one of its maps is too
/// short.
fn read_rules(model: &Vec<u8>) -> (r: Option<Rules>)
    ensures
        match r {
            Some(rules) => rules.are_of(model@) && !has_short_map(model@),
            None => has_short_map(model@),
        },
{
    let fs: Vec<Field> = match read_fields(model) {
        Some(fs) => fs,
        None => {
            let none: Vec<Vec<u8>> = Vec::new();
            let none_either: Vec<Vec<u8>> = Vec::new();
            let empty: Vec<u8> = Vec::new();
            let decodes: bool = has_whole_keys(&empty);
            proof {
                assert(byte_views(none@) =~= Seq::<Seq<u8>>::empty());
                assert(byte_views(none_either@) =~= Seq::<Seq<u8>>::empty());
                assert(map_in(model@, 3) =~= Seq::<u8>::empty());
                assert(map_in(model@, 5) =~= Seq::<u8>::empty());
                assert(empty@ =~= trie_of(map_in(model@, 5)));
            }
            return Some(
                Rules {
                    symbols: none,
                    unused: none_either,
                    map: CharMap { trie: Vec::new(), tail: 0 },
                    merges: false,
                    decodes,
                },
            );
        },
    };
    let map: Vec<u8> = read_map(&fs, 3);
    let back: Vec<u8> = read_map(&fs, 5);
    proof {
        assert(map@ == map_in(model@, 3));
        assert(back@ == map_in(model@, 5));
    }
    if map_is_short(&map) || map_is_short(&back) {
        return None;
    }
    let merges: bool = model_merges(&fs);
    let decodes: bool = has_whole_keys(&cut_map(&back).trie);
    Some(
        Rules {
            symbols: read_pieces(&fs, USER_DEFINED),
            unused: read_pieces(&fs, UNUSED),
            map: cut_map(&map),
            merges,
            decodes,
        },
    )
}

fn finds_piece(t: &Vec<u8>, pieces: &Vec<Vec<u8>>) -> (r: bool)
    ensures
        r == holds_piece(t@, byte_views(pieces@)),
{
    let ghost vs = byte_views(pieces@);
    let mut k: usize = 0;
    while k < pieces.len()
        invariant
            vs == byte_views(pieces@),
            k <= pieces@.len(),
            forall|j: int, i: int|
                0 <= j < k && 0 <= i <= t@.len() ==> !#[trigger] vs[j].is_prefix_of(
                    #[trigger] t@.skip(i),
                ),
        decreases pieces@.len() - k,
    {
        let mut i: usize = 0;
        let mut last: bool = false;
        proof {
            assert(vs[k as int] == pieces@[k as int]@);
        }
        while !last
            invariant
                vs == byte_views(pieces@),
                k < pieces@.len(),
                vs[k as int] == pieces@[k as int]@,
                i <= t@.len(),
                last ==> i == t@.len(),
                forall|x: int|
                    0 <= x < i || (last && x == i) ==> !#[trigger] vs[k as int].is_prefix_of(
                        t@.skip(x),
                    ),
            decreases
                    if last {
                        0
                    } else {
                        t@.len() - i + 1
                    },
        {
            if begins_with(t, i, &pieces[k]) {
                proof {
                    assert(vs[k as int].is_prefix_of(t@.skip(i as int)));
                    assert(0 <= k < vs.len());
                }
                return true;
            }
            if i == t.len() {
                last = true;
            } else {
                i += 1;
            }
        }
        k += 1;
    }
    false
}

/// A tokenizer.
pub struct Tokenizer {
    sp: SentencePieceProcessor,
    rules: Rules,
}

fn bytes_of(s: &str) -> (r: Vec<u8>)
    ensures
        r@ == vstd::utf8::encode_utf8(s@),
{
    let b = s.as_bytes();
    let mut out: Vec<u8> = Vec::new();
    let mut i: usize = 0;
    while i < b.len()
        invariant
            i <= b@.len(),
            out@ == b@.take(i as int),
        decreases b@.len() - i,
    {
        out.push(b[i]);
        proof {
            assert(b@.take(i + 1) =~= b@.take(i as int).push(b@[i as int]));
        }
        i += 1;
    }
    proof {
        assert(b@.take(i as int) =~= b@);
    }
    out
}

impl Tokenizer {
    #[verifier::type_invariant]
    spec fn is_sound(self) -> bool {
        self.rules.are_of(source(self.sp))
    }

    /// The file that the tokenizer was made from.
    pub closed spec fn model(&self) -> Seq<u8> {
        source(self.sp)
    }

    /// The tokenizer of a model's file.
    pub fn from_bytes(model: &Vec<u8>) -> (r: Result<Tokenizer, TokenizerError>)
        ensures
            match r {
                Ok(t) => is_model(model@) && !has_short_map(model@) && t.model() == model@,
                Err(TokenizerError::ShortMap) => has_short_map(model@),
                Err(TokenizerError::NoModel(_)) => !has_short_map(model@) && !is_model(model@),
            },
    {
        match read_rules(model) {
            None => Err(TokenizerError::ShortMap),
            Some(rules) => match load(model) {
                Err(words) => Err(TokenizerError::NoModel(words)),
                Ok(sp) => Ok(Tokenizer { sp, rules }),
            },
        }
    }

    /// Whether a text can be cut into pieces.
    pub fn takes(&self, text: &str) -> (r: bool)
        ensures
            r == can_encode(self.model(), text@),
    {
        proof {
            use_type_invariant(self);
        }
        let ghost map = map_in(source(self.sp), 3);
        if !goes_through(&self.rules.symbols, &self.rules.map, Ghost(map), &bytes_of(text)) {
            return false;
        }
        if !self.rules.merges {
            return true;
        }
        match normalize(&self.sp, text) {
            Some(t) => !finds_piece(&bytes_of(t.as_str()), &self.rules.unused),
            None => true,
        }
    }

    /// Whether all ids can be put together.
    pub fn gives_texts(&self) -> (r: bool)
        ensures
            r == can_decode(self.model()),
    {
        proof {
            use_type_invariant(self);
        }
        self.rules.decodes
    }

    /// The ids of a text.
    pub fn encode(&self, text: &str) -> (r: Option<Vec<usize>>)
        requires
            can_encode(self.model(), text@),
        ensures
            encoded(self.model(), text@) == match r {
                Some(v) => Some(v@),
                None => None::<Seq<usize>>,
            },
    {
        encode_to_ids(&self.sp, text)
    }

    /// The text of ids.
    pub fn decode(&self, ids: &Vec<usize>) -> (r: Option<String>)
        requires
            can_decode(self.model()),
        ensures
            decoded(self.model(), ids@) == text::opt_view(r),
    {
        decode_ids(&self.sp, ids)
    }
}

// ── Laws ────────────────────────────────────────────────────────────────────

/// What a text lacks does not depend on whole characters before it.
proof fn whole_characters_lack_nothing(a: Seq<u8>, b: Seq<u8>)
    requires
        lacking(a) == Some(0u8),
    ensures
        lacking(a + b) == lacking(b),
    decreases b.len(),
{
    if b.len() == 0 {
        assert(a + b =~= a);
    } else {
        whole_characters_lack_nothing(a, b.drop_last());
        assert((a + b).drop_last() =~= a + b.drop_last());
        assert((a + b).last() == b.last());
    }
}

/// What the beginning of a character lacks is the rest of it.
proof fn beginnings_lack_the_rest(t: Seq<u8>, k: int)
    requires
        t.len() > 0,
        vstd::utf8::valid_first_scalar(t),
        0 <= k <= vstd::utf8::length_of_first_scalar(t),
    ensures
        vstd::utf8::length_of_first_scalar(t) == char_len(t[0]),
        vstd::utf8::length_of_first_scalar(t) <= t.len(),
        !(0x80 <= t[0] < 0xc0),
        lacking(t.take(k)) == Some(
            if k == 0 {
                0u8
            } else {
                (char_len(t[0]) - k) as u8
            },
        ),
{
    reveal_with_fuel(lacking, 5);
    let n = vstd::utf8::length_of_first_scalar(t);
    let (t0, t1, t2, t3, t4) = (t.take(0), t.take(1), t.take(2), t.take(3), t.take(4));
    assert(t0 =~= Seq::<u8>::empty());
    assert(t1.drop_last() =~= t0 && t1.last() == t[0]);
    if n >= 2 {
        assert(t2.drop_last() =~= t1 && t2.last() == t[1]);
    }
    if n >= 3 {
        assert(t3.drop_last() =~= t2 && t3.last() == t[2]);
    }
    if n >= 4 {
        assert(t4.drop_last() =~= t3 && t4.last() == t[3]);
    }
}

/// A text can be cut wherever nothing is lacking.
proof fn texts_can_be_cut(t: Seq<u8>, k: int)
    requires
        vstd::utf8::valid_utf8(t),
        0 <= k <= t.len(),
    ensures
        lacking(t.take(k)) is Some,
        lacking(t.take(k)) == Some(0u8) ==> vstd::utf8::valid_utf8(t.skip(k)),
        k == t.len() ==> lacking(t) == Some(0u8),
    decreases t.len(),
{
    if t.len() == 0 {
        assert(t.take(k) =~= t);
        assert(t.skip(k) =~= t);
    } else {
        let n = vstd::utf8::length_of_first_scalar(t);
        beginnings_lack_the_rest(t, 0);
        if k < n {
            beginnings_lack_the_rest(t, k);
            assert(t.skip(0) =~= t);
        } else {
            beginnings_lack_the_rest(t, n);
            let rest = t.skip(n);
            assert(rest =~= vstd::utf8::pop_first_scalar(t));
            texts_can_be_cut(rest, k - n);
            whole_characters_lack_nothing(t.take(n), rest.take(k - n));
            assert(t.take(n) + rest.take(k - n) =~= t.take(k));
            assert(rest.skip(k - n) =~= t.skip(k));
            if k == t.len() {
                assert(rest.take(k - n) =~= rest);
                assert(t.take(k) =~= t);
            }
        }
    }
}

/// Whether what was found at the start of a text is a key.
spec fn is_found_key(trie: Seq<u8>, t: Seq<u8>, found: Option<(nat, u32)>) -> bool {
    found matches Some((n, _)) ==> {
        &&& 0 < n <= t.len()
        &&& reached(trie, t.take(n as int)) matches Some(i) && ends_key(word_at(trie, 4 * i))
    }
}

proof fn what_is_found_is_a_key(
    trie: Seq<u8>,
    t: Seq<u8>,
    i: u32,
    k: nat,
    found: Option<(nat, u32)>,
)
    requires
        node_count(trie) > 0,
        k <= t.len(),
        reached(trie, t.take(k as int)) == Some(i),
        is_found_key(trie, t, found),
    ensures
        is_found_key(trie, t, longest_from(trie, t, i, k, found)),
    decreases t.len() - k,
{
    if k < t.len() {
        if let Some(p) = child(trie, i, t[k as int]) {
            assert(t.take(k as int + 1).drop_last() =~= t.take(k as int));
            assert(t.take(k as int + 1).last() == t[k as int]);
            let next = match replacement(trie, p) {
                Some(at) => Some((k + 1, at)),
                None => found,
            };
            what_is_found_is_a_key(trie, t, p, k + 1, next);
        }
    }
}

proof fn longest_prefix_is_one(v: Seq<Seq<u8>>, t: Seq<u8>)
    ensures
        longest_prefix(v, t) > 0 ==> exists|i: int|
            0 <= i < v.len() && (#[trigger] v[i]).is_prefix_of(t) && v[i].len() == longest_prefix(
                v,
                t,
            ),
    decreases v.len(),
{
    if v.len() > 0 {
        let before = v.drop_last();
        longest_prefix_is_one(before, t);
        if v.last().is_prefix_of(t) && v.last().len() > longest_prefix(before, t) {
            assert(v[v.len() - 1] == v.last());
        } else if longest_prefix(before, t) > 0 {
            let i = choose|i: int|
                0 <= i < before.len() && (#[trigger] before[i]).is_prefix_of(t) && before[i].len()
                    == longest_prefix(before, t);
            assert(v[i] == before[i]);
        }
    }
}

/// A character map without a key that ends inside a character takes every text,
/// whatever texts are taken out of it first.
pub proof fn whole_maps_take_every_text(symbols: Seq<Seq<u8>>, map: Seq<u8>, t: Seq<u8>)
    requires
        keys_are_whole(trie_of(map)),
        forall|i: int|
            0 <= i < symbols.len() ==> vstd::utf8::valid_utf8(#[trigger] symbols[i]),
        vstd::utf8::valid_utf8(t),
    ensures
        is_gone_through(symbols, map, t),
    decreases t.len(),
{
    if t.len() > 0 {
        beginnings_lack_the_rest(t, 0);
        let n = taken_at(symbols, map, t);
        if 0 < n <= t.len() {
            let trie = trie_of(map);
            longest_prefix_is_one(symbols, t);
            if longest_prefix(symbols, t) > 0 {
                let i = choose|i: int|
                    0 <= i < symbols.len() && (#[trigger] symbols[i]).is_prefix_of(t)
                        && symbols[i].len() == longest_prefix(symbols, t);
                texts_can_be_cut(symbols[i], symbols[i].len() as int);
                assert(t.take(n as int) =~= symbols[i]);
                texts_can_be_cut(t, n as int);
            } else if node_count(trie) > 0 {
                assert(t.take(0) =~= Seq::<u8>::empty());
                what_is_found_is_a_key(trie, t, 0, 0, None);
                texts_can_be_cut(t, n as int);
                beginnings_lack_the_rest(t, char_len(t[0]) as int);
                if lacking(t.take(n as int)) != Some(0u8) {
                    assert(is_cut_key(trie, t.take(n as int)));
                }
            } else {
                beginnings_lack_the_rest(t, n as int);
                texts_can_be_cut(t, n as int);
            }
            whole_maps_take_every_text(symbols, map, t.skip(n as int));
        }
    }
}

} // verus!
