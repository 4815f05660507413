//! Where the controls of a window stand.
use vstd::prelude::*;

use crate::text;

verus! {

/// What a control is.
#[derive(Debug, Clone, Copy, PartialEq, Eq, Structural)]
pub enum ControlKind {
    Label,
    /// A label that the program changes.
    Status,
    Separator,
    Edit,
    NumberEdit,
    ReadOnlyEdit,
    PasswordEdit,
    Combo,
    IconCombo,
    Button,
    DefaultButton,
    CheckBox,
    /// The first check box of a group.
    FirstCheckBox,
    GroupBox,
    Radio,
    /// The first radio button of a group.
    FirstRadio,
    ListBox,
    Slider,
    /// A square that shows a colour.
    Swatch,
    Tabs,
}

/// A control in a table: what it is; its text; where it begins from the left, or,
/// where that is negative, from the right edge; the same from the top or the
/// bottom edge; its width, or, where that is not positive, how far its right side
/// is from the right edge; the same for its height and the bottom edge; and its
/// number. A negative number stands for a control without one whose text the
/// program fills in.
pub type Row = (ControlKind, &'static str, i32, i32, i32, i32, i32);

/// The part of a window that controls stand in.
#[derive(Debug, Clone, Copy, PartialEq, Eq, Structural)]
pub struct Area {
    pub left: i32,
    pub top: i32,
    pub width: i32,
    pub height: i32,
}

/// A control, with its place in the window.
pub struct Control {
    pub kind: ControlKind,
    pub text: String,
    pub x: i64,
    pub y: i64,
    pub w: i64,
    pub h: i64,
    pub id: i32,
    pub checked: bool,
}

/// A text that the program fills in.
pub struct FieldText {
    pub id: i32,
    pub text: String,
}

/// A control's start along one direction.
pub open spec fn start(origin: int, size: int, at: int) -> int {
    if at >= 0 {
        origin + at
    } else {
        origin + size + at
    }
}

/// A control's extent along one direction.
pub open spec fn extent(origin: int, size: int, at: int, len: int) -> int {
    if len > 0 {
        len
    } else {
        origin + size + len - start(origin, size, at)
    }
}

/// The numbers and texts of what is filled in.
pub open spec fn field_views(v: Seq<FieldText>) -> Seq<(i32, Seq<char>)> {
    v.map_values(|f: FieldText| (f.id, f.text@))
}

/// The text that is filled in for a control, if one is.
pub open spec fn filled_in(texts: Seq<(i32, Seq<char>)>, id: i32) -> Option<Seq<char>>
    decreases texts.len(),
{
    if texts.len() == 0 {
        None
    } else if texts[0].0 == id {
        Some(texts[0].1)
    } else {
        filled_in(texts.skip(1), id)
    }
}

/// Whether `c` is the control of a row in an area, whatever its height: its text
/// is the row's own unless one is filled in, and it is checked where its number
/// is listed.
pub open spec fn stands(
    row: Row,
    area: Area,
    texts: Seq<(i32, Seq<char>)>,
    checked: Seq<i32>,
    c: Control,
) -> bool {
    &&& c.kind == row.0
    &&& c.text@ == match filled_in(texts, row.6) {
        Some(t) => t,
        None => row.1@,
    }
    &&& c.x == start(area.left as int, area.width as int, row.2 as int)
    &&& c.y == start(area.top as int, area.height as int, row.3 as int)
    &&& c.w == extent(area.left as int, area.width as int, row.2 as int, row.4 as int)
    &&& c.id == if row.6 < 0 {
        0
    } else {
        row.6
    }
    &&& c.checked == checked.contains(row.6)
}

/// Whether `c` is the control of a row in an area.
pub open spec fn is_placed(
    row: Row,
    area: Area,
    texts: Seq<(i32, Seq<char>)>,
    checked: Seq<i32>,
    c: Control,
) -> bool {
    &&& stands(row, area, texts, checked, c)
    &&& c.h == extent(area.top as int, area.height as int, row.3 as int, row.5 as int)
}

fn start_at(origin: i32, size: i32, at: i32) -> (r: i64)
    ensures
        r == start(origin as int, size as int, at as int),
{
    if at >= 0 {
        origin as i64 + at as i64
    } else {
        origin as i64 + size as i64 + at as i64
    }
}

fn extent_of(origin: i32, size: i32, at: i32, len: i32) -> (r: i64)
    ensures
        r == extent(origin as int, size as int, at as int, len as int),
{
    if len > 0 {
        len as i64
    } else {
        origin as i64 + size as i64 + len as i64 - start_at(origin, size, at)
    }
}

fn find_text(texts: &Vec<FieldText>, id: i32) -> (r: Option<String>)
    ensures
        text::opt_view(r) == filled_in(field_views(texts@), id),
{
    let ghost views = field_views(texts@);
    let mut i: usize = 0;
    proof {
        assert(views.skip(0) =~= views);
    }
    while i < texts.len()
        invariant
            views == field_views(texts@),
            i <= texts@.len(),
            filled_in(views.skip(i as int), id) == filled_in(views, id),
        decreases texts@.len() - i,
    {
        proof {
            assert(views.skip(i as int)[0] == (texts@[i as int].id, texts@[i as int].text@));
            assert(views.skip(i as int).skip(1) =~= views.skip(i + 1));
        }
        if texts[i].id == id {
            return Some(texts[i].text.clone());
        }
        i += 1;
    }
    None
}

fn is_listed(v: &Vec<i32>, id: i32) -> (r: bool)
    ensures
        r == v@.contains(id),
{
    let mut i: usize = 0;
    while i < v.len()
        invariant
            i <= v@.len(),
            forall|j: int| 0 <= j < i ==> v@[j] != id,
        decreases v@.len() - i,
    {
        if v[i] == id {
            proof {
                assert(v@[i as int] == id);
            }
            return true;
        }
        i += 1;
    }
    false
}

/// Whether controls stand where a table says, one for each of its rows.
pub open spec fn laid_out(
    table: Seq<Row>,
    area: Area,
    texts: Seq<(i32, Seq<char>)>,
    checked: Seq<i32>,
    r: Seq<Control>,
) -> bool {
    &&& r.len() == table.len()
    &&& forall|i: int|
        0 <= i < r.len() ==> is_placed(table[i], area, texts, checked, #[trigger] r[i])
}

/// The controls of a table, placed in an area, with the texts and the checks that
/// the program fills in.
pub fn lay_out(table: &[Row], area: Area, texts: &Vec<FieldText>, checked: &Vec<i32>) -> (r: Vec<
    Control,
>)
    ensures
        laid_out(table@, area, field_views(texts@), checked@, r@),
{
    let mut out: Vec<Control> = Vec::new();
    let mut i: usize = 0;
    while i < table.len()
        invariant
            i <= table@.len(),
            out@.len() == i,
            forall|j: int|
                0 <= j < i ==> is_placed(table@[j], area, field_views(texts@), checked@, #[trigger] out@[j]),
        decreases table@.len() - i,
    {
        let ghost before = out@;
        let row = table[i];
        let words: String = match find_text(texts, row.6) {
            Some(t) => t,
            None => row.1.to_owned(),
        };
        let c = Control {
            kind: row.0,
            text: words,
            x: start_at(area.left, area.width, row.2),
            y: start_at(area.top, area.height, row.3),
            w: extent_of(area.left, area.width, row.2, row.4),
            h: extent_of(area.top, area.height, row.3, row.5),
            id: if row.6 < 0 {
                0
            } else {
                row.6
            },
            checked: is_listed(checked, row.6),
        };
        out.push(c);
        proof {
            assert forall|j: int| 0 <= j < i + 1 implies is_placed(
                table@[j],
                area,
                field_views(texts@),
                checked@,
                #[trigger] out@[j],
            ) by {
                if j < i {
                    assert(out@[j] == before[j]);
                }
            }
        }
        i += 1;
    }
    out
}

/// A text in the form that the system takes: in UTF-16, with a zero at its end.
/// A character beyond the first plane takes two units.
pub open spec fn utf16(s: Seq<char>) -> Seq<u16>
    decreases s.len(),
{
    if s.len() == 0 {
        seq![0u16]
    } else {
        units(s[0]) + utf16(s.skip(1))
    }
}

/// The UTF-16 units of a character.
pub open spec fn units(c: char) -> Seq<u16> {
    let n = c as u32;
    if n < 0x10000 {
        seq![n as u16]
    } else {
        seq![
            (0xD800 + (n - 0x10000) / 0x400) as u16,
            (0xDC00 + (n - 0x10000) % 0x400) as u16,
        ]
    }
}

/// A text in the form that the system takes.
pub fn wide(s: &str) -> (r: Vec<u16>)
    ensures
        r@ == utf16(s@),
{
    let v = text::chars_of(s);
    let n: usize = v.len();
    let mut out: Vec<u16> = Vec::new();
    let mut i: usize = 0;
    proof {
        assert(v@.skip(0) =~= s@);
        assert(out@ + utf16(v@.skip(0)) =~= utf16(s@));
    }
    while i < n
        invariant
            v@ == s@,
            n == v@.len(),
            i <= n,
            out@ + utf16(v@.skip(i as int)) == utf16(s@),
        decreases n - i,
    {
        let ghost before = out@;
        let c: u32 = v[i] as u32;
        if c < 0x10000 {
            out.push(c as u16);
        } else {
            out.push((0xD800 + (c - 0x10000) / 0x400) as u16);
            out.push((0xDC00 + (c - 0x10000) % 0x400) as u16);
        }
        proof {
            assert(v@.skip(i as int)[0] == v@[i as int]);
            assert(v@.skip(i as int).skip(1) =~= v@.skip(i + 1));
            assert(out@ =~= before + units(v@[i as int]));
            assert(before + (units(v@[i as int]) + utf16(v@.skip(i + 1))) =~= out@ + utf16(
                v@.skip(i + 1),
            ));
        }
        i += 1;
    }
    out.push(0);
    proof {
        assert(utf16(v@.skip(n as int)) =~= seq![0u16]);
    }
    out
}

// ── Laws ────────────────────────────────────────────────────────────────────

/// Where an area grows at its right, controls that are tied to the left stay and
/// those tied to the right edge keep their distance from it.
pub proof fn controls_follow_their_edge(origin: int, size: int, more: int, at: int, len: int)
    ensures
        at >= 0 ==> start(origin, size + more, at) == start(origin, size, at),
        at < 0 ==> start(origin, size + more, at) == start(origin, size, at) + more,
        len <= 0 ==> origin + size + more - (start(origin, size + more, at) + extent(
            origin,
            size + more,
            at,
            len,
        )) == origin + size - (start(origin, size, at) + extent(origin, size, at, len)),
        len > 0 ==> extent(origin, size + more, at, len) == extent(origin, size, at, len),
{
}

/// A character beyond the first plane is two surrogates, the high one first, from
/// which it can be read again; any other is a single unit, its own number. A text
/// ends in a zero, and what stands before it is the units of its characters.
pub proof fn wide_texts_can_be_read_again(c: char, a: Seq<char>, b: Seq<char>)
    ensures
        (c as u32) < 0x10000 ==> units(c).len() == 1 && units(c)[0] == c as u32,
        (c as u32) >= 0x10000 ==> {
            &&& units(c).len() == 2
            &&& 0xD800 <= units(c)[0] < 0xDC00
            &&& 0xDC00 <= units(c)[1] < 0xE000
            &&& 0x10000 + 0x400 * (units(c)[0] - 0xD800) + (units(c)[1] - 0xDC00) == c as u32
        },
        utf16(a).len() > 0 && utf16(a).last() == 0,
        utf16(a + b) == utf16(a).drop_last() + utf16(b),
        utf16(seq![c]) == units(c).push(0),
    decreases a.len(),
{
    let none = Seq::<char>::empty();
    assert(utf16(none) == seq![0u16]);
    assert(seq![c].skip(1) =~= none);
    assert(utf16(seq![c]) =~= units(c).push(0));
    if a.len() == 0 {
        assert(a + b =~= b);
        assert(a =~= none);
        assert(utf16(a).drop_last() + utf16(b) =~= utf16(b));
    } else {
        wide_texts_can_be_read_again(c, a.skip(1), b);
        assert((a + b).skip(1) =~= a.skip(1) + b);
        assert((a + b)[0] == a[0]);
        assert(utf16(a + b) =~= utf16(a).drop_last() + utf16(b));
    }
}

/// The text that is filled in for a control is the first one with its number; a
/// control without one keeps its own.
pub proof fn controls_get_their_own_text(texts: Seq<(i32, Seq<char>)>, id: i32, i: int)
    requires
        0 <= i <= texts.len(),
        forall|j: int| 0 <= j < i ==> (#[trigger] texts[j]).0 != id,
        i < texts.len() ==> texts[i].0 == id,
    ensures
        i < texts.len() ==> filled_in(texts, id) == Some(texts[i].1),
        i == texts.len() ==> filled_in(texts, id) is None,
    decreases texts.len(),
{
    if i > 0 {
        let rest = texts.skip(1);
        assert(texts[0].0 != id);
        assert forall|j: int| 0 <= j < i - 1 implies (#[trigger] rest[j]).0 != id by {
            assert(rest[j] == texts[j + 1]);
        }
        controls_get_their_own_text(rest, id, i - 1);
    }
}

} // verus!
