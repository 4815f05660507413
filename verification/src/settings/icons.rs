//! The icons that an action can show, and how the list of them is painted.
use vstd::prelude::*;

use crate::config;
use crate::config_laws;
use crate::settings::sounds;
use crate::settings::sounds::IconItem;
use crate::settings::triggers::COLOR_BOX;
use crate::text;

verus! {

/// Side of the square before an icon's name, and the gap around it.
pub const SWATCH_SIZE: i32 = 20;

pub const SWATCH_PAD: i32 = 4;

/// Height of a row in the list.
pub const ITEM_HEIGHT: i32 = 26;

/// Side of a cell of the pattern that stands for a colour that can be chosen.
pub const CELL: i32 = 5;

/// What stands for no icon, and its colour.
pub const NO_ICON_LABEL: &'static str = "(none)";

pub const NO_ICON_COLOR: u32 = 0x00888888;

pub const COLOR_BOX_LABEL: &'static str = "Color Box";

/// Whether a file's name has the extension of a picture. A dot that begins a name
/// begins no extension.
pub open spec fn is_picture(name: Seq<char>) -> bool {
    config::last_dot(name) matches Some(i) && i > 0 && (name.skip(i + 1) == "png"@ || name.skip(
        i + 1,
    ) == "jpg"@)
}

/// Whether a file's name has the extension of a picture.
pub fn picture_file(name: &str) -> (r: bool)
    ensures
        r == is_picture(name@),
{
    let v = text::chars_of(name);
    let mut n: usize = v.len();
    proof {
        assert(v@.take(n as int) =~= name@);
    }
    while n > 0
        invariant
            v@ == name@,
            n <= v@.len(),
            config::last_dot(v@.take(n as int)) == config::last_dot(name@),
        decreases n,
    {
        proof {
            assert(v@.take(n as int).last() == v@[n - 1]);
            assert(v@.take(n as int).drop_last() =~= v@.take(n - 1));
        }
        if v[n - 1] == '.' {
            if n == 1 {
                return false;
            }
            let e = text::string_of_range(&v, n, v.len());
            proof {
                assert(e@ =~= name@.skip(n as int));
            }
            return text::same(e.as_str(), "png") || text::same(e.as_str(), "jpg");
        }
        n -= 1;
    }
    false
}

/// Whether a list of fixed names holds a name.
pub open spec fn is_stock(stock: Seq<&'static str>, name: Seq<char>) -> bool {
    exists|i: int| 0 <= i < stock.len() && (#[trigger] stock[i])@ == name
}

fn stock_has(stock: &[&'static str], name: &str) -> (r: bool)
    ensures
        r == is_stock(stock@, name@),
{
    let mut i: usize = 0;
    while i < stock.len()
        invariant
            i <= stock@.len(),
            forall|j: int| 0 <= j < i ==> (#[trigger] stock@[j])@ != name@,
        decreases stock@.len() - i,
    {
        if text::same(stock[i], name) {
            return true;
        }
        i += 1;
    }
    false
}

/// The pictures among some files that did not come with the program.
pub open spec fn own_pictures(files: Seq<Seq<char>>, stock: Seq<&'static str>) -> Seq<Seq<char>> {
    files.filter(|f: Seq<char>| is_picture(f) && !is_stock(stock, f))
}

/// Where a text is put into a list in order: behind all that do not follow it.
pub open spec fn text_place(v: Seq<Seq<char>>, s: Seq<char>) -> nat
    decreases v.len(),
{
    if v.len() == 0 || !text::not_after(v[0], s) {
        0
    } else {
        1 + text_place(v.skip(1), s)
    }
}

/// Texts in order.
pub open spec fn text_sorted(v: Seq<Seq<char>>) -> Seq<Seq<char>>
    decreases v.len(),
{
    if v.len() == 0 {
        v
    } else {
        let t = text_sorted(v.drop_last());
        t.insert(text_place(t, v.last()) as int, v.last())
    }
}

proof fn text_place_splits(v: Seq<Seq<char>>, s: Seq<char>)
    ensures
        text_place(v, s) <= v.len(),
        forall|i: int| 0 <= i < text_place(v, s) ==> text::not_after(#[trigger] v[i], s),
        text_place(v, s) < v.len() ==> !text::not_after(v[text_place(v, s) as int], s),
    decreases v.len(),
{
    if v.len() > 0 && text::not_after(v[0], s) {
        text_place_splits(v.skip(1), s);
        assert forall|i: int| 0 <= i < text_place(v, s) implies text::not_after(
            #[trigger] v[i],
            s,
        ) by {
            if i > 0 {
                assert(v[i] == v.skip(1)[i - 1]);
            }
        }
    }
}

/// Sorting puts texts in order and neither loses nor adds one.
pub proof fn sorting_orders_texts(v: Seq<Seq<char>>)
    ensures
        text::in_text_order(text_sorted(v)),
        text_sorted(v).len() == v.len(),
        text_sorted(v).to_multiset() == v.to_multiset(),
    decreases v.len(),
{
    broadcast use vstd::seq_lib::group_to_multiset_ensures;

    if v.len() > 0 {
        let t = text_sorted(v.drop_last());
        let s = v.last();
        sorting_orders_texts(v.drop_last());
        text_place_splits(t, s);
        let p = text_place(t, s) as int;
        let u = t.insert(p, s);
        assert forall|i: int, j: int| 0 <= i <= j < u.len() implies text::not_after(
            #[trigger] u[i],
            #[trigger] u[j],
        ) by {
            let i2 = if i < p { i } else { i - 1 };
            let j2 = if j < p { j } else { j - 1 };
            if i == p && j == p {
                text::order_is_total(s, s);
            } else if i == p {
                text::order_is_total(t[p], s);
                if j2 > p {
                    assert(text::not_after(t[p], t[j2]));
                    text::order_is_transitive(s, t[p], t[j2]);
                }
            } else if j == p {
                assert(text::not_after(t[i2], s));
            } else {
                assert(text::not_after(t[i2], t[j2]));
            }
        }
        assert(v.drop_last().push(s) =~= v);
        assert(u.to_multiset() =~= t.to_multiset().insert(s));
    }
}

/// Texts in order.
pub fn sort_texts(v: Vec<String>) -> (r: Vec<String>)
    ensures
        text::views(r@) == text_sorted(text::views(v@)),
{
    let ghost all = v@;
    let ghost vs = text::views(all);
    let mut out: Vec<String> = Vec::new();
    proof {
        assert(vs.take(0) =~= Seq::<Seq<char>>::empty());
        assert(text::views(out@) =~= text_sorted(vs.take(0)));
    }
    for s in it: v
        invariant
            it.seq() == all,
            vs == text::views(all),
            text::views(out@) == text_sorted(vs.take(it.index() as int)),
    {
        let ghost k = it.index() as int;
        let ghost before = text::views(out@);
        let ghost outs = out@;
        let n: usize = out.len();
        let mut p: usize = 0;
        proof {
            assert(s == all[k]);
            assert(vs.take(k + 1).drop_last() =~= vs.take(k));
            assert(vs.take(k + 1).last() == s@);
            assert(before.skip(0) =~= before);
        }
        while p < n && text::sorts_before(out[p].as_str(), s.as_str())
            invariant
                n == out@.len(),
                before == text::views(out@),
                p <= n,
                p + text_place(before.skip(p as int), s@) == text_place(before, s@),
            decreases n - p,
        {
            proof {
                assert(before.skip(p as int)[0] == out@[p as int]@);
                assert(before.skip(p as int).skip(1) =~= before.skip(p + 1));
            }
            p += 1;
        }
        proof {
            if p < n {
                assert(before.skip(p as int)[0] == out@[p as int]@);
            }
            assert(text_place(before.skip(p as int), s@) == 0);
        }
        out.insert(p, s);
        proof {
            assert(text::views(out@) =~= before.insert(p as int, s@));
        }
    }
    proof {
        assert(vs.take(vs.len() as int) =~= vs);
    }
    out
}

/// The files that the list of icons shows: the pictures that did not come with
/// the program, in order.
pub fn icon_files(files: &Vec<String>, stock: &[&'static str]) -> (r: Vec<String>)
    ensures
        text::views(r@) == text_sorted(own_pictures(text::views(files@), stock@)),
{
    let ghost vs = text::views(files@);
    let ghost keeps = |f: Seq<char>| is_picture(f) && !is_stock(stock@, f);
    let mut kept: Vec<String> = Vec::new();
    let mut i: usize = 0;
    proof {
        reveal(Seq::filter);
        assert(vs.take(0) =~= Seq::<Seq<char>>::empty());
        assert(text::views(kept@) =~= vs.take(0).filter(keeps));
    }
    while i < files.len()
        invariant
            vs == text::views(files@),
            keeps == (|f: Seq<char>| is_picture(f) && !is_stock(stock@, f)),
            i <= files@.len(),
            text::views(kept@) == vs.take(i as int).filter(keeps),
        decreases files@.len() - i,
    {
        let ghost before = kept@;
        proof {
            reveal(Seq::filter);
            assert(vs.take(i + 1).drop_last() =~= vs.take(i as int));
            assert(vs.take(i + 1).last() == files@[i as int]@);
        }
        let f = &files[i];
        if picture_file(f.as_str()) && !stock_has(stock, f.as_str()) {
            kept.push(f.clone());
            proof {
                assert(keeps(f@));
                text::views_push(before, kept@.last());
            }
        } else {
            proof {
                assert(!keeps(f@));
            }
        }
        i += 1;
    }
    proof {
        assert(vs.take(i as int) =~= vs);
    }
    sort_texts(kept)
}

/// Whether an entry shows a file.
pub open spec fn shows_file(f: Seq<char>, color: u32, item: IconItem) -> bool {
    &&& item.key@ == f
    &&& item.label@ == sounds::without_ending(sounds::without_ending(f, ".jpg"@), ".png"@)
    &&& item.color == color
}

/// The list of icons: none, the colour box, and the files, each with its colour.
pub fn build_icon_items(files: &Vec<String>, box_color: u32, colors: &Vec<u32>) -> (r: Vec<IconItem>)
    requires
        files@.len() == colors@.len(),
    ensures
        r@.len() == files@.len() + 2,
        r@[0].key@.len() == 0,
        r@[0].label@ == NO_ICON_LABEL@,
        r@[0].color == NO_ICON_COLOR,
        r@[1].key@ == COLOR_BOX@,
        r@[1].label@ == COLOR_BOX_LABEL@,
        r@[1].color == box_color,
        forall|i: int|
            0 <= i < files@.len() ==> shows_file(
                files@[i]@,
                colors@[i],
                #[trigger] r@[i + 2],
            ),
{
    let mut out: Vec<IconItem> = Vec::new();
    out.push(
        IconItem { key: String::new(), label: NO_ICON_LABEL.to_owned(), color: NO_ICON_COLOR },
    );
    out.push(
        IconItem {
            key: COLOR_BOX.to_owned(),
            label: COLOR_BOX_LABEL.to_owned(),
            color: box_color,
        },
    );
    let n: usize = files.len();
    let mut i: usize = 0;
    while i < n
        invariant
            n == files@.len(),
            files@.len() == colors@.len(),
            i <= n,
            out@.len() == i + 2,
            out@[0].key@.len() == 0,
            out@[0].label@ == NO_ICON_LABEL@,
            out@[0].color == NO_ICON_COLOR,
            out@[1].key@ == COLOR_BOX@,
            out@[1].label@ == COLOR_BOX_LABEL@,
            out@[1].color == box_color,
            forall|j: int|
                0 <= j < i ==> shows_file(files@[j]@, colors@[j], #[trigger] out@[j + 2]),
        decreases n - i,
    {
        let ghost before = out@;
        out.push(
            IconItem {
                key: files[i].clone(),
                label: sounds::icon_label(files[i].as_str()),
                color: colors[i],
            },
        );
        proof {
            assert forall|j: int| 0 <= j < i + 1 implies shows_file(
                files@[j]@,
                colors@[j],
                #[trigger] out@[j + 2],
            ) by {
                if j < i {
                    assert(out@[j + 2] == before[j + 2]);
                }
            }
        }
        i += 1;
    }
    out
}

// ── Painting ────────────────────────────────────────────────────────────────

/// What is painted before an icon's name.
#[derive(Debug, Clone, Copy, PartialEq, Eq, Structural)]
pub enum IconPaint {
    Nothing,
    Thumbnail,
    Checkerboard,
    Solid,
}

/// Whether a key names a picture by its ending.
pub open spec fn ends_as_picture(key: Seq<char>) -> bool {
    (key.len() >= 4 && key.skip(key.len() - 4) == ".png"@) || (key.len() >= 4 && key.skip(
        key.len() - 4,
    ) == ".jpg"@)
}

/// What is painted before an icon's name: its thumbnail where it is a picture
/// that could be read, the pattern for the colour box, else its colour.
pub fn icon_paint(key: &str, has_thumb: bool) -> (r: IconPaint)
    ensures
        r == if key@.len() == 0 {
            IconPaint::Nothing
        } else if ends_as_picture(key@) && has_thumb {
            IconPaint::Thumbnail
        } else if key@ == COLOR_BOX@ {
            IconPaint::Checkerboard
        } else {
            IconPaint::Solid
        },
{
    if key.is_empty() {
        return IconPaint::Nothing;
    }
    let v = text::chars_of(key);
    let n: usize = v.len();
    let picture: bool = if n >= 4 {
        let e = text::string_of_range(&v, n - 4, n);
        proof {
            assert(e@ =~= key@.skip(n - 4));
        }
        text::same(e.as_str(), ".png") || text::same(e.as_str(), ".jpg")
    } else {
        false
    };
    if picture && has_thumb {
        IconPaint::Thumbnail
    } else if text::same(key, COLOR_BOX) {
        IconPaint::Checkerboard
    } else {
        IconPaint::Solid
    }
}

/// The colours of a row's ground and of its text.
pub fn row_colors(selected: bool) -> (r: (u32, u32))
    ensures
        r == if selected {
            (0x00D77800u32, 0x00FFFFFFu32)
        } else {
            (0x00FFFFFFu32, 0x00000000u32)
        },
{
    if selected {
        (0x00D77800, 0x00FFFFFF)
    } else {
        (0x00FFFFFF, 0x00000000)
    }
}

/// The size of a thumbnail: that of the picture, or the square's where either
/// side is longer.
pub fn thumb_size(w: u32, h: u32) -> (r: (u32, u32))
    ensures
        r == if w > SWATCH_SIZE || h > SWATCH_SIZE {
            (SWATCH_SIZE as u32, SWATCH_SIZE as u32)
        } else {
            (w, h)
        },
        r.0 <= SWATCH_SIZE,
        r.1 <= SWATCH_SIZE,
{
    if w > SWATCH_SIZE as u32 || h > SWATCH_SIZE as u32 {
        (SWATCH_SIZE as u32, SWATCH_SIZE as u32)
    } else {
        (w, h)
    }
}

/// A cell of the pattern.
#[derive(Debug, Clone, Copy, PartialEq, Eq, Structural)]
pub struct Cell {
    pub left: i32,
    pub top: i32,
    pub right: i32,
    pub bottom: i32,
    pub white: bool,
}

/// The lesser of two numbers.
pub open spec fn lesser(a: int, b: int) -> int {
    if a < b {
        a
    } else {
        b
    }
}

/// Whether `c` is the cell of the pattern in a row and a column: cut off at the
/// edges, white where both count to an even number.
pub open spec fn is_cell(x: int, y: int, w: int, h: int, row: int, col: int, c: Cell) -> bool {
    &&& c.left == x + CELL * col
    &&& c.top == y + CELL * row
    &&& c.right == lesser(x + CELL * col + CELL, x + w)
    &&& c.bottom == lesser(y + CELL * row + CELL, y + h)
    &&& c.white == ((row + col) % 2 == 0)
}

/// How many cells lie along a side.
pub open spec fn cells_along(len: int) -> int {
    (len + CELL - 1) / (CELL as int)
}

fn cell_row(x: i32, y: i32, w: i32, h: i32, row: i32) -> (r: Vec<Cell>)
    requires
        -0x1000_0000 <= x <= 0x1000_0000,
        -0x1000_0000 <= y <= 0x1000_0000,
        0 <= w <= 0x1000_0000,
        0 <= h <= 0x1000_0000,
        0 <= row < cells_along(h as int),
    ensures
        r@.len() == cells_along(w as int),
        forall|j: int|
            0 <= j < r@.len() ==> is_cell(
                x as int,
                y as int,
                w as int,
                h as int,
                row as int,
                j,
                #[trigger] r@[j],
            ),
{
    let mut out: Vec<Cell> = Vec::new();
    let top: i32 = y + CELL * row;
    let bottom: i32 = if top + CELL < y + h {
        top + CELL
    } else {
        y + h
    };
    let mut col: i32 = 0;
    while CELL * col < w
        invariant
            -0x1000_0000 <= x <= 0x1000_0000,
            0 <= w <= 0x1000_0000,
            0 <= row <= 0x1000_0000,
            0 <= col <= cells_along(w as int),
            out@.len() == col,
            top == y + CELL * row,
            bottom == lesser(y + CELL * row + CELL, y + h),
            forall|j: int|
                0 <= j < col ==> is_cell(
                    x as int,
                    y as int,
                    w as int,
                    h as int,
                    row as int,
                    j,
                    #[trigger] out@[j],
                ),
        decreases cells_along(w as int) - col,
    {
        let ghost before = out@;
        let left: i32 = x + CELL * col;
        let right: i32 = if left + CELL < x + w {
            left + CELL
        } else {
            x + w
        };
        out.push(Cell { left, top, right, bottom, white: (row + col) % 2 == 0 });
        proof {
            assert forall|j: int| 0 <= j < col + 1 implies is_cell(
                x as int,
                y as int,
                w as int,
                h as int,
                row as int,
                j,
                #[trigger] out@[j],
            ) by {
                if j < col {
                    assert(out@[j] == before[j]);
                }
            }
        }
        col += 1;
    }
    out
}

/// The pattern that stands for a colour that can be chosen: cells in rows, white
/// and grey in turn.
pub fn checkerboard(x: i32, y: i32, w: i32, h: i32) -> (r: Vec<Vec<Cell>>)
    requires
        -0x1000_0000 <= x <= 0x1000_0000,
        -0x1000_0000 <= y <= 0x1000_0000,
        0 <= w <= 0x1000_0000,
        0 <= h <= 0x1000_0000,
    ensures
        r@.len() == cells_along(h as int),
        forall|i: int|
            0 <= i < r@.len() ==> (#[trigger] r@[i])@.len() == cells_along(w as int),
        forall|i: int, j: int|
            0 <= i < r@.len() && 0 <= j < cells_along(w as int) ==> is_cell(
                x as int,
                y as int,
                w as int,
                h as int,
                i,
                j,
                #[trigger] r@[i]@[j],
            ),
{
    let mut out: Vec<Vec<Cell>> = Vec::new();
    let mut row: i32 = 0;
    while CELL * row < h
        invariant
            -0x1000_0000 <= x <= 0x1000_0000,
            -0x1000_0000 <= y <= 0x1000_0000,
            0 <= w <= 0x1000_0000,
            0 <= h <= 0x1000_0000,
            0 <= row <= cells_along(h as int),
            out@.len() == row,
            forall|i: int|
                0 <= i < row ==> (#[trigger] out@[i])@.len() == cells_along(w as int),
            forall|i: int, j: int|
                0 <= i < row && 0 <= j < cells_along(w as int) ==> is_cell(
                    x as int,
                    y as int,
                    w as int,
                    h as int,
                    i,
                    j,
                    #[trigger] out@[i]@[j],
                ),
        decreases cells_along(h as int) - row,
    {
        let ghost before = out@;
        let cells = cell_row(x, y, w, h, row);
        out.push(cells);
        proof {
            assert forall|i: int, j: int|
                0 <= i < row + 1 && 0 <= j < cells_along(w as int) implies is_cell(
                x as int,
                y as int,
                w as int,
                h as int,
                i,
                j,
                #[trigger] out@[i]@[j],
            ) by {
                if i < row {
                    assert(out@[i] == before[i]);
                } else {
                    assert(out@[i] == cells);
                }
            }
        }
        row += 1;
    }
    out
}

// ── Laws ────────────────────────────────────────────────────────────────────

/// Whether a point lies in a cell.
pub open spec fn lies_in(px: int, py: int, c: Cell) -> bool {
    c.left <= px < c.right && c.top <= py < c.bottom
}

/// The pattern covers its square: each point lies in the cell of its row and
/// column, and in no other.
pub proof fn each_point_lies_in_one_cell(
    x: int,
    y: int,
    w: int,
    h: int,
    px: int,
    py: int,
    row: int,
    col: int,
    c: Cell,
)
    requires
        x <= px < x + w,
        y <= py < y + h,
        0 <= row < cells_along(h),
        0 <= col < cells_along(w),
        is_cell(x, y, w, h, row, col, c),
    ensures
        lies_in(px, py, c) <==> row == (py - y) / (CELL as int) && col == (px - x) / (CELL as int),
        0 <= (py - y) / (CELL as int) < cells_along(h),
        0 <= (px - x) / (CELL as int) < cells_along(w),
{
}

/// A picture is a file with something before its last dot and `png` or `jpg` behind
/// it; no other file is one.
pub proof fn pictures_go_by_their_extension(stem: Seq<char>, extension: Seq<char>)
    requires
        !text::has_char(extension, '.'),
    ensures
        stem.len() > 0 ==> (is_picture(stem + seq!['.'] + extension) <==> extension == "png"@
            || extension == "jpg"@),
        !is_picture(seq!['.'] + extension),
        !is_picture(extension),
{
    let none = Seq::<char>::empty();
    config_laws::last_dots_are_found(stem, extension);
    config_laws::last_dots_are_found(none, extension);
    assert(none + seq!['.'] + extension =~= seq!['.'] + extension);
    assert((stem + seq!['.'] + extension).skip(stem.len() as int + 1) =~= extension);
}

} // verus!
