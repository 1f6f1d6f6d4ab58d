//! Window geometry: thumbnail sizes, the image grid, the placement of the controls in
//! each mode, and the positions of the main window and of dialogs.
use vstd::prelude::*;
use crate::session::Tab;

verus! {

/// Integer division rounding toward zero, as `/` does on Rust's signed integers.
pub open spec fn tdiv(a: int, b: int) -> int {
    if a >= 0 {
        a / b
    } else {
        -((-a) / b)
    }
}

pub open spec fn min_int(a: int, b: int) -> int {
    if a <= b {
        a
    } else {
        b
    }
}

pub open spec fn max_int(a: int, b: int) -> int {
    if a >= b {
        a
    } else {
        b
    }
}

// ---------------------------------------------------------------------------
// Thumbnails
// ---------------------------------------------------------------------------

/// Longest side of a thumbnail.
pub const THUMB_MAX: u32 = 84;

/// The size of a `w` by `h` image fitted into a `maxside` square: kept when it fits
/// (each side at least 1); otherwise the longer side becomes `maxside` and the other is
/// scaled in proportion, rounding down, and at least 1.
pub open spec fn scaled_size_spec(w: nat, h: nat, maxside: nat) -> (nat, nat) {
    if w <= maxside && h <= maxside {
        (if w >= 1 { w } else { 1 }, if h >= 1 { h } else { 1 })
    } else if w >= h {
        (maxside, if h * maxside / w >= 1 { h * maxside / w } else { 1 })
    } else {
        (if w * maxside / h >= 1 { w * maxside / h } else { 1 }, maxside)
    }
}

pub fn scaled_size(w: u32, h: u32, maxside: u32) -> (r: (u32, u32))
    requires
        !(w <= maxside && h <= maxside) ==> if w >= h {
            h * maxside <= u32::MAX
        } else {
            w * maxside <= u32::MAX
        },
    ensures
        (r.0 as nat, r.1 as nat) == scaled_size_spec(w as nat, h as nat, maxside as nat),
{
    if w <= maxside && h <= maxside {
        return (if w >= 1 { w } else { 1 }, if h >= 1 { h } else { 1 });
    }
    if w >= h {
        let s = h * maxside / w;
        (maxside, if s >= 1 { s } else { 1 })
    } else {
        let s = w * maxside / h;
        (if s >= 1 { s } else { 1 }, maxside)
    }
}

/// A fitted size is never empty and, when the image does not fit, its longer side is
/// exactly `maxside` and neither side exceeds it.
pub proof fn lemma_scaled_size_fits(w: nat, h: nat, maxside: nat)
    requires
        maxside >= 1,
    ensures
        ({
            let (a, b) = scaled_size_spec(w, h, maxside);
            &&& a >= 1 && b >= 1
            &&& a <= maxside || a == w
            &&& b <= maxside || b == h
            &&& a <= maxside && b <= maxside || (w <= maxside && h <= maxside)
            &&& (w > maxside || h > maxside) ==> (a == maxside || b == maxside) && a <= maxside
                && b <= maxside
        }),
{
    if !(w <= maxside && h <= maxside) {
        if w >= h {
            assert(h * maxside <= w * maxside) by (nonlinear_arith)
                requires
                    h <= w,
            ;
            assert(h * maxside / w <= maxside) by (nonlinear_arith)
                requires
                    h * maxside <= w * maxside,
                    w > 0,
            ;
        } else {
            assert(w * maxside <= h * maxside) by (nonlinear_arith)
                requires
                    w <= h,
            ;
            assert(w * maxside / h <= maxside) by (nonlinear_arith)
                requires
                    w * maxside <= h * maxside,
                    h > 0,
            ;
        }
    }
}

/// An image that fits keeps its size; one that does not keeps its proportions, up to
/// rounding down: its longer side becomes `maxside` and its shorter side `b` is the
/// largest with `b / maxside` not above the ratio of the original sides (but at least 1).
pub proof fn lemma_scaled_size_proportion(w: nat, h: nat, maxside: nat)
    ensures
        w <= maxside && h <= maxside && w >= 1 && h >= 1 ==> scaled_size_spec(w, h, maxside) == (w, h),
        !(w <= maxside && h <= maxside) && w >= h ==> {
            let b = scaled_size_spec(w, h, maxside).1;
            &&& scaled_size_spec(w, h, maxside).0 == maxside
            &&& h * maxside >= w ==> b * w <= h * maxside < (b + 1) * w
            &&& h * maxside < w ==> b == 1
        },
        !(w <= maxside && h <= maxside) && w < h ==> {
            let a = scaled_size_spec(w, h, maxside).0;
            &&& scaled_size_spec(w, h, maxside).1 == maxside
            &&& w * maxside >= h ==> a * h <= w * maxside < (a + 1) * h
            &&& w * maxside < h ==> a == 1
        },
{
    if !(w <= maxside && h <= maxside) {
        if w >= h {
            let q = h * maxside / w;
            assert(q * w <= h * maxside < (q + 1) * w) by (nonlinear_arith)
                requires q == h * maxside / w, w > 0;
            if h * maxside >= w {
                assert(q >= 1) by (nonlinear_arith)
                    requires q == h * maxside / w, w > 0, h * maxside >= w;
            } else {
                assert(q == 0) by (nonlinear_arith)
                    requires q == h * maxside / w, w > 0, h * maxside < w;
            }
        } else {
            let q = w * maxside / h;
            assert(q * h <= w * maxside < (q + 1) * h) by (nonlinear_arith)
                requires q == w * maxside / h, h > 0;
            if w * maxside >= h {
                assert(q >= 1) by (nonlinear_arith)
                    requires q == w * maxside / h, h > 0, w * maxside >= h;
            } else {
                assert(q == 0) by (nonlinear_arith)
                    requires q == w * maxside / h, h > 0, w * maxside < h;
            }
        }
    }
}

// ---------------------------------------------------------------------------
// Image grid
// ---------------------------------------------------------------------------

/// Side of one grid cell, margin included.
pub const IMG_CELL: i32 = 96;
/// Margin around the grid and between cells.
pub const IMG_PAD: i32 = 4;
/// Client width that three columns need.
pub const IMG_PANEL_W: i32 = 292;

pub open spec fn img_cols_spec(panel_w: int) -> int {
    max_int(tdiv(panel_w - IMG_PAD, IMG_CELL as int), 1)
}

/// How many columns fit into a panel of width `panel_w` (at least one).
pub fn img_cols(panel_w: i32) -> (c: i32)
    ensures
        c == img_cols_spec(panel_w as int),
        c >= 1,
{
    let q: i64 = (panel_w as i64 - IMG_PAD as i64) / IMG_CELL as i64;
    if q >= 1 {
        q as i32
    } else {
        1
    }
}

pub open spec fn img_cell_origin_spec(i: int, cols: int) -> (int, int) {
    (IMG_PAD + (i % cols) * IMG_CELL, IMG_PAD + (i / cols) * IMG_CELL)
}

/// The top left corner of grid cell `i`, counted row by row.
pub fn img_cell_origin(i: usize, cols: i32) -> (r: (i32, i32))
    requires
        cols >= 1,
        i <= i32::MAX,
        img_cell_origin_spec(i as int, cols as int).0 <= i32::MAX,
        img_cell_origin_spec(i as int, cols as int).1 <= i32::MAX,
    ensures
        (r.0 as int, r.1 as int) == img_cell_origin_spec(i as int, cols as int),
{
    let ii = i as i32;
    let col = ii % cols;
    let row = ii / cols;
    assert(0 <= col * IMG_CELL) by (nonlinear_arith)
        requires
            0 <= col,
    ;
    assert(0 <= row * IMG_CELL) by (nonlinear_arith)
        requires
            0 <= row,
    ;
    (IMG_PAD + col * IMG_CELL, IMG_PAD + row * IMG_CELL)
}

pub open spec fn img_hit_test_spec(x: int, y: int, count: nat, cols: int) -> Option<nat> {
    if x < IMG_PAD || y < IMG_PAD {
        None
    } else {
        let col = (x - IMG_PAD) / (IMG_CELL as int);
        let row = (y - IMG_PAD) / (IMG_CELL as int);
        if col >= cols {
            None
        } else {
            let idx = row * cols + col;
            if idx < count {
                Some(idx as nat)
            } else {
                None
            }
        }
    }
}

/// The image under a click at `(x, y)`, if any.
pub fn img_hit_test(x: i32, y: i32, count: usize, cols: i32) -> (r: Option<usize>)
    requires
        cols >= 1,
    ensures
        match r {
            Some(i) => img_hit_test_spec(x as int, y as int, count as nat, cols as int) == Some(
                i as nat,
            ),
            None => img_hit_test_spec(x as int, y as int, count as nat, cols as int) is None,
        },
{
    if x < IMG_PAD || y < IMG_PAD {
        return None;
    }
    let col: i64 = (x as i64 - IMG_PAD as i64) / IMG_CELL as i64;
    let row: i64 = (y as i64 - IMG_PAD as i64) / IMG_CELL as i64;
    if col >= cols as i64 {
        return None;
    }
    assert(row * cols <= 0x7fff_ffff * 0x7fff_ffff) by (nonlinear_arith)
        requires
            0 <= row <= 0x7fff_ffff,
            1 <= cols <= 0x7fff_ffff,
    ;
    let idx: i64 = row * cols as i64 + col;
    assert(idx >= 0) by (nonlinear_arith)
        requires
            idx == row * cols + col,
            row >= 0,
            cols >= 1,
            col >= 0,
    ;
    if (idx as u64) < (count as u64) {
        Some(idx as usize)
    } else {
        None
    }
}

/// A click inside cell `i` of the grid hits image `i`, when there is such an image.
pub proof fn lemma_hit_test_cell(i: nat, cols: int, count: nat, dx: int, dy: int)
    requires
        cols >= 1,
        i < count,
        0 <= dx < IMG_CELL,
        0 <= dy < IMG_CELL,
    ensures
        img_hit_test_spec(
            img_cell_origin_spec(i as int, cols).0 + dx,
            img_cell_origin_spec(i as int, cols).1 + dy,
            count,
            cols,
        ) == Some(i),
{
    let col = (i as int) % cols;
    let row = (i as int) / cols;
    assert(0 <= col < cols) by (nonlinear_arith)
        requires
            cols >= 1,
            col == (i as int) % cols,
    ;
    assert(row >= 0) by (nonlinear_arith)
        requires
            cols >= 1,
            row == (i as int) / cols,
            i >= 0,
    ;
    assert((col * IMG_CELL + dx) / (IMG_CELL as int) == col) by (nonlinear_arith)
        requires
            0 <= dx < 96,
            col >= 0,
    ;
    assert((row * IMG_CELL + dy) / (IMG_CELL as int) == row) by (nonlinear_arith)
        requires
            0 <= dy < 96,
            row >= 0,
    ;
    assert(row * cols + col == i) by (nonlinear_arith)
        requires
            cols >= 1,
            col == (i as int) % cols,
            row == (i as int) / cols,
    ;
    assert(col * IMG_CELL >= 0) by (nonlinear_arith)
        requires
            col >= 0,
    ;
    assert(row * IMG_CELL >= 0) by (nonlinear_arith)
        requires
            row >= 0,
    ;
}

// ---------------------------------------------------------------------------
// Placement of the controls
// ---------------------------------------------------------------------------

/// A rectangle given by its top left corner, width and height.
#[derive(Clone, Copy, Debug, PartialEq, Eq, Structural)]
pub struct Place {
    pub x: i32,
    pub y: i32,
    pub w: i32,
    pub h: i32,
}

/// A button that is hidden (and left where it was), or shown at a place.
#[derive(Clone, Copy, Debug, PartialEq, Eq, Structural)]
pub enum Slot {
    Hidden,
    Shown(Place),
}

/// Where each control of the main window goes: the mode label and button on top, the
/// item list or the image panel in the middle (one place for both), and the buttons in
/// two rows below.
#[derive(Clone, Copy, Debug, PartialEq, Eq, Structural)]
pub struct LayoutPlan {
    pub label: Place,
    pub mode: Place,
    pub center: Place,
    pub show_list: bool,
    pub paste: Slot,
    pub to_snip: Slot,
    pub add: Slot,
    pub edit: Slot,
    pub images: Slot,
    pub delete: Slot,
    pub settings: Slot,
}

/// Height of a button.
pub const BUTTON_H: i32 = 28;

pub open spec fn place(x: int, y: int, w: int, h: int) -> Place {
    Place { x: x as i32, y: y as i32, w: w as i32, h: h as i32 }
}

pub open spec fn shown(x: int, y: int, w: int) -> Slot {
    Slot::Shown(place(x, y, w, BUTTON_H as int))
}

/// The placement for a client area of `w` by `h` in a mode: two buttons per row of half
/// the width each, except the snippet mode's second row, which holds edit, delete and
/// settings at a third each; buttons that the mode does not use are hidden.
pub open spec fn layout_spec(w: int, h: int, tab: Tab) -> LayoutPlan {
    let row1 = h - 68;
    let row2 = h - 34;
    let half = tdiv(w - 18, 2);
    let third = tdiv(w - 24, 3);
    let base = LayoutPlan {
        label: place(6, 7, 54, 20),
        mode: place(62, 3, w - 68, 26),
        center: place(0, 32, w, h - 32 - 72),
        show_list: tab != Tab::Image,
        paste: shown(6, row1, half),
        to_snip: Slot::Hidden,
        add: Slot::Hidden,
        edit: Slot::Hidden,
        images: Slot::Hidden,
        delete: shown(6, row2, half),
        settings: shown(12 + half, row2, half),
    };
    match tab {
        Tab::History => LayoutPlan { to_snip: shown(12 + half, row1, half), ..base },
        Tab::Snippet => LayoutPlan {
            add: shown(12 + half, row1, half),
            edit: shown(6, row2, third),
            delete: shown(12 + third, row2, third),
            settings: shown(18 + third * 2, row2, third),
            ..base
        },
        Tab::Image => LayoutPlan { images: shown(12 + half, row1, half), ..base },
    }
}

/// The placement of the controls for a client area of `w` by `h` in a mode.
pub fn layout_plan(w: i32, h: i32, tab: Tab) -> (p: LayoutPlan)
    requires
        w >= i32::MIN + 68,
        h >= i32::MIN + 104,
    ensures
        p == layout_spec(w as int, h as int, tab),
{
    let row1 = h - 68;
    let row2 = h - 34;
    let half = (w - 18) / 2;
    let third = (w - 24) / 3;
    let bh = BUTTON_H;
    let base = LayoutPlan {
        label: Place { x: 6, y: 7, w: 54, h: 20 },
        mode: Place { x: 62, y: 3, w: w - 68, h: 26 },
        center: Place { x: 0, y: 32, w, h: h - 32 - 72 },
        show_list: tab != Tab::Image,
        paste: Slot::Shown(Place { x: 6, y: row1, w: half, h: bh }),
        to_snip: Slot::Hidden,
        add: Slot::Hidden,
        edit: Slot::Hidden,
        images: Slot::Hidden,
        delete: Slot::Shown(Place { x: 6, y: row2, w: half, h: bh }),
        settings: Slot::Shown(Place { x: 12 + half, y: row2, w: half, h: bh }),
    };
    match tab {
        Tab::History => LayoutPlan {
            to_snip: Slot::Shown(Place { x: 12 + half, y: row1, w: half, h: bh }),
            ..base
        },
        Tab::Snippet => LayoutPlan {
            add: Slot::Shown(Place { x: 12 + half, y: row1, w: half, h: bh }),
            edit: Slot::Shown(Place { x: 6, y: row2, w: third, h: bh }),
            delete: Slot::Shown(Place { x: 12 + third, y: row2, w: third, h: bh }),
            settings: Slot::Shown(Place { x: 18 + third * 2, y: row2, w: third, h: bh }),
            ..base
        },
        Tab::Image => LayoutPlan {
            images: Slot::Shown(Place { x: 12 + half, y: row1, w: half, h: bh }),
            ..base
        },
    }
}

/// Which buttons each mode shows: paste, delete and settings in every mode, with paste
/// at the left of the first row at half the width; "to snippet" only with the history,
/// add and edit only with the snippets, the image button only in image mode; the item
/// list everywhere but in image mode. Delete and settings share the second row in halves,
/// except with the snippets, where edit, delete and settings take a third each.
pub proof fn lemma_layout_buttons(w: int, h: int, tab: Tab)
    ensures
        ({
            let p = layout_spec(w, h, tab);
            let half = tdiv(w - 18, 2);
            let third = tdiv(w - 24, 3);
            &&& p.paste == Slot::Shown(place(6, h - 68, half, 28))
            &&& p.delete is Shown
            &&& p.settings is Shown
            &&& (p.to_snip is Shown) == (tab == Tab::History)
            &&& (p.add is Shown) == (tab == Tab::Snippet)
            &&& (p.edit is Shown) == (tab == Tab::Snippet)
            &&& (p.images is Shown) == (tab == Tab::Image)
            &&& p.show_list == (tab != Tab::Image)
            &&& tab == Tab::History ==> p.to_snip == Slot::Shown(place(12 + half, h - 68, half, 28))
            &&& tab == Tab::Image ==> p.images == Slot::Shown(place(12 + half, h - 68, half, 28))
            &&& tab == Tab::Snippet ==> {
                &&& p.add == Slot::Shown(place(12 + half, h - 68, half, 28))
                &&& p.edit == Slot::Shown(place(6, h - 34, third, 28))
                &&& p.delete == Slot::Shown(place(12 + third, h - 34, third, 28))
                &&& p.settings == Slot::Shown(place(18 + 2 * third, h - 34, third, 28))
            }
            &&& tab != Tab::Snippet ==> {
                &&& p.delete == Slot::Shown(place(6, h - 34, half, 28))
                &&& p.settings == Slot::Shown(place(12 + half, h - 34, half, 28))
            }
        }),
{
}

/// A shown button lies inside `[lo, hi]` horizontally.
pub open spec fn slot_within(s: Slot, lo: int, hi: int) -> bool {
    match s {
        Slot::Hidden => true,
        Slot::Shown(p) => lo <= p.x && p.x + p.w <= hi,
    }
}

/// In every mode, for a client area at least 24 wide and 104 high: each shown button keeps a
/// 6 pixel margin to the left and right edges, neighbouring buttons of a row do not
/// overlap, the two button rows do not overlap, and both lie below the list area.
pub proof fn lemma_layout_fits(w: int, h: int, tab: Tab)
    requires
        24 <= w <= i32::MAX,
        104 <= h <= i32::MAX,
    ensures
        ({
            let p = layout_spec(w, h, tab);
            &&& slot_within(p.paste, 6, w - 6)
            &&& slot_within(p.to_snip, 6, w - 6)
            &&& slot_within(p.add, 6, w - 6)
            &&& slot_within(p.edit, 6, w - 6)
            &&& slot_within(p.images, 6, w - 6)
            &&& slot_within(p.delete, 6, w - 6)
            &&& slot_within(p.settings, 6, w - 6)
            &&& p.center.y + p.center.h <= h - 68
            &&& (h - 68) + BUTTON_H <= h - 34
            &&& (h - 34) + BUTTON_H <= h
            &&& match (p.paste, p.to_snip, p.add, p.images) {
                (Slot::Shown(a), Slot::Shown(b), _, _) => a.x + a.w <= b.x,
                (Slot::Shown(a), _, Slot::Shown(b), _) => a.x + a.w <= b.x,
                (Slot::Shown(a), _, _, Slot::Shown(b)) => a.x + a.w <= b.x,
                _ => true,
            }
            &&& match (p.edit, p.delete, p.settings) {
                (Slot::Shown(a), Slot::Shown(b), Slot::Shown(c)) => a.x + a.w <= b.x && b.x + b.w
                    <= c.x,
                (_, Slot::Shown(b), Slot::Shown(c)) => b.x + b.w <= c.x,
                _ => true,
            }
        }),
{
    let half = tdiv(w - 18, 2);
    let third = tdiv(w - 24, 3);
    assert(half >= 3 && 2 * half <= w - 18);
    assert(third >= 0 && 3 * third <= w - 24);
}

// ---------------------------------------------------------------------------
// Window positions
// ---------------------------------------------------------------------------

/// Where the window goes on entering image mode: as wide as three image columns need, but
/// never narrower than it was nor wider than the work area; moved left so that it does not
/// stick out on the right, and then right so that it does not stick out on the left.
pub open spec fn image_mode_window_spec(x: int, cw: int, need_w: int, work_left: int, work_right: int) -> (
    int,
    int,
) {
    let want_w = min_int(max_int(need_w, cw), work_right - work_left);
    let nx1 = if x + want_w > work_right {
        work_right - want_w
    } else {
        x
    };
    let nx = if nx1 < work_left {
        work_left
    } else {
        nx1
    };
    (nx, want_w)
}

/// A value that an `i32` can hold.
pub open spec fn fits_i32(v: int) -> bool {
    i32::MIN <= v <= i32::MAX
}

/// The image-mode window computation does not overflow `i32`: the work area's width, the
/// moved window's right edge, and (when that is past the work area) the corrected left
/// edge all fit.
pub open spec fn image_mode_window_ok(x: int, cw: int, need_w: int, work_left: int, work_right: int) -> bool {
    let want_w = min_int(max_int(need_w, cw), work_right - work_left);
    &&& fits_i32(work_right - work_left)
    &&& fits_i32(x + want_w)
    &&& x + want_w > work_right ==> fits_i32(work_right - want_w)
}

/// The position and width of the window in image mode.
pub fn image_mode_window(x: i32, cw: i32, need_w: i32, work_left: i32, work_right: i32) -> (r: (
    i32,
    i32,
))
    requires
        image_mode_window_ok(x as int, cw as int, need_w as int, work_left as int, work_right as int),
    ensures
        (r.0 as int, r.1 as int) == image_mode_window_spec(
            x as int,
            cw as int,
            need_w as int,
            work_left as int,
            work_right as int,
        ),
{
    let widest = if need_w >= cw {
        need_w
    } else {
        cw
    };
    let want_w = if widest <= work_right - work_left {
        widest
    } else {
        work_right - work_left
    };
    let mut nx = x;
    if nx as i64 + want_w as i64 > work_right as i64 {
        nx = work_right - want_w;
    }
    if nx < work_left {
        nx = work_left;
    }
    (nx, want_w)
}

/// When the work area is not inverted, the window in image mode lies inside it horizontally.
pub proof fn lemma_image_mode_window_inside(x: int, cw: int, need_w: int, work_left: int, work_right: int)
    requires
        work_left <= work_right,
        need_w >= 0 || cw >= 0,
    ensures
        ({
            let (nx, ww) = image_mode_window_spec(x, cw, need_w, work_left, work_right);
            &&& work_left <= nx
            &&& nx + ww <= work_right
            &&& ww <= work_right - work_left
        }),
{
}

/// Where a dialog of `width` by `height` goes: centred on its parent's rectangle, then
/// kept inside the work area (the left and top edges win when it does not fit).
pub open spec fn dialog_origin_spec(parent: (int, int, int, int), work: (int, int, int, int), width: int, height: int) -> (int, int) {
    let (pl, pt, pr, pb) = parent;
    let (wl, wt, wr, wb) = work;
    (
        max_int(min_int(pl + tdiv((pr - pl) - width, 2), wr - width), wl),
        max_int(min_int(pt + tdiv((pb - pt) - height, 2), wb - height), wt),
    )
}

/// One axis of the dialog computation does not overflow `i32`: the parent's extent, that
/// less the dialog's extent, the centred edge, and the work area's far edge less the
/// dialog's extent all fit.
pub open spec fn dialog_axis_ok(lo: int, hi: int, work_hi: int, size: int) -> bool {
    &&& fits_i32(hi - lo)
    &&& fits_i32((hi - lo) - size)
    &&& fits_i32(lo + tdiv((hi - lo) - size, 2))
    &&& fits_i32(work_hi - size)
}

/// The top left corner of a dialog, from its parent's rectangle and the work area (each
/// as left, top, right, bottom).
pub fn dialog_origin(parent: (i32, i32, i32, i32), work: (i32, i32, i32, i32), width: i32, height: i32) -> (r: (i32, i32))
    requires
        dialog_axis_ok(parent.0 as int, parent.2 as int, work.2 as int, width as int),
        dialog_axis_ok(parent.1 as int, parent.3 as int, work.3 as int, height as int),
    ensures
        (r.0 as int, r.1 as int) == dialog_origin_spec(
            (parent.0 as int, parent.1 as int, parent.2 as int, parent.3 as int),
            (work.0 as int, work.1 as int, work.2 as int, work.3 as int),
            width as int,
            height as int,
        ),
{
    let (pl, pt, pr, pb) = parent;
    let (wl, wt, wr, wb) = work;
    let cx: i64 = pl as i64 + ((pr as i64 - pl as i64) - width as i64) / 2;
    let cy: i64 = pt as i64 + ((pb as i64 - pt as i64) - height as i64) / 2;
    let x1 = if cx <= wr as i64 - width as i64 {
        cx
    } else {
        wr as i64 - width as i64
    };
    let y1 = if cy <= wb as i64 - height as i64 {
        cy
    } else {
        wb as i64 - height as i64
    };
    let x = if x1 >= wl as i64 {
        x1
    } else {
        wl as i64
    };
    let y = if y1 >= wt as i64 {
        y1
    } else {
        wt as i64
    };
    (x as i32, y as i32)
}

/// A dialog that fits into the work area is placed wholly inside it; in any case its top
/// left corner is not left of or above the work area.
pub proof fn lemma_dialog_inside(parent: (int, int, int, int), work: (int, int, int, int), width: int, height: int)
    ensures
        ({
            let (x, y) = dialog_origin_spec(parent, work, width, height);
            &&& x >= work.0 && y >= work.1
            &&& width <= work.2 - work.0 ==> x + width <= work.2
            &&& height <= work.3 - work.1 ==> y + height <= work.3
        }),
{
}

/// Size of the main window when it is first shown.
pub const MAIN_W: i32 = 250;
pub const MAIN_H: i32 = 520;

/// Where the main window first appears: at the right of the work area, 20 pixels in, and
/// vertically centred, but never left of or above the work area.
pub open spec fn initial_origin_spec(work: (int, int, int, int)) -> (int, int) {
    let (wl, wt, wr, wb) = work;
    (max_int(wr - MAIN_W - 20, wl), max_int(tdiv(wt + wb, 2) - tdiv(MAIN_H as int, 2), wt))
}

pub fn initial_origin(work: (i32, i32, i32, i32)) -> (r: (i32, i32))
    requires
        fits_i32(work.2 - MAIN_W),
        fits_i32(work.2 - MAIN_W - 20),
        fits_i32(work.1 + work.3),
    ensures
        (r.0 as int, r.1 as int) == initial_origin_spec(
            (work.0 as int, work.1 as int, work.2 as int, work.3 as int),
        ),
{
    let (wl, wt, wr, wb) = work;
    let x0 = wr - MAIN_W - 20;
    let x = if x0 >= wl {
        x0
    } else {
        wl
    };
    let y0 = (wt + wb) / 2 - MAIN_H / 2;
    let y = if y0 >= wt {
        y0
    } else {
        wt
    };
    (x, y)
}

// ---------------------------------------------------------------------------
// List selection
// ---------------------------------------------------------------------------

/// The row to select after refilling a list of `count` rows: the previous row, kept and
/// cut to the last row when asked to, else the first; none when the list is empty.
pub open spec fn list_selection_spec(keep_sel: bool, prev: int, count: int) -> Option<int> {
    if count > 0 {
        Some(
            if keep_sel && prev >= 0 {
                min_int(prev, count - 1)
            } else {
                0
            },
        )
    } else {
        None
    }
}

pub fn list_selection(keep_sel: bool, prev: isize, count: isize) -> (r: Option<isize>)
    ensures
        match r {
            Some(v) => list_selection_spec(keep_sel, prev as int, count as int) == Some(v as int),
            None => list_selection_spec(keep_sel, prev as int, count as int) is None,
        },
{
    if count > 0 {
        Some(
            if keep_sel && prev >= 0 {
                if prev <= count - 1 {
                    prev
                } else {
                    count - 1
                }
            } else {
                0
            },
        )
    } else {
        None
    }
}

/// The main window first appears inside the work area's left and top edges; where the work
/// area is wide enough its right edge stands 20 pixels in from the work area's right
/// edge, and where it is high enough it is vertically centred, to a pixel.
pub proof fn lemma_initial_origin(work: (int, int, int, int))
    ensures
        ({
            let (x, y) = initial_origin_spec(work);
            let (wl, wt, wr, wb) = work;
            &&& x >= wl && y >= wt
            &&& wr - MAIN_W - 20 >= wl ==> x + MAIN_W == wr - 20
            &&& tdiv(wt + wb, 2) - tdiv(MAIN_H as int, 2) >= wt ==> -1 <= (wb - (y + MAIN_H)) - (y
                - wt) <= 1
        }),
{
}

/// After a list is refilled, a row is selected exactly when the list is not empty, and it
/// is a row of the list: the previous one when it is to be kept and still exists, the last
/// one when it is to be kept and the list got shorter, else the first.
pub proof fn lemma_list_selection(keep_sel: bool, prev: int, count: int)
    ensures
        (list_selection_spec(keep_sel, prev, count) is Some) == (count > 0),
        list_selection_spec(keep_sel, prev, count) matches Some(r) ==> {
            &&& 0 <= r < count
            &&& keep_sel && 0 <= prev < count ==> r == prev
            &&& keep_sel && prev >= count ==> r == count - 1
            &&& !keep_sel || prev < 0 ==> r == 0
        },
{
}

/// The font height is the size in points scaled from 72 to the resolution (96 when none
/// is known), rounded down, and negated.
pub proof fn lemma_list_font_height(size_pt: nat, dpi: nat)
    ensures
        ({
            let h = list_font_height_spec(size_pt, dpi);
            let d = if dpi == 0 { 96 } else { dpi };
            &&& h <= 0
            &&& -h * 72 <= size_pt * d < (-h + 1) * 72
        }),
{
    let d = if dpi == 0 { 96nat } else { dpi };
    let q = size_pt * d / 72;
    assert(q * 72 <= size_pt * d < (q + 1) * 72) by (nonlinear_arith)
        requires q == size_pt * d / 72;
}

/// A thumbnail that fits in a cell's inner square is drawn inside it, centred: the space
/// left on either side differs by at most one pixel, with the extra pixel on the right or
/// at the bottom.
pub proof fn lemma_thumb_centred(ox: int, oy: int, tw: int, th: int)
    requires
        0 <= tw <= IMG_CELL - IMG_PAD,
        0 <= th <= IMG_CELL - IMG_PAD,
    ensures
        ({
            let (x, y) = thumb_origin_spec(ox, oy, tw, th);
            let inner = IMG_CELL - IMG_PAD;
            &&& ox <= x && x + tw <= ox + inner
            &&& oy <= y && y + th <= oy + inner
            &&& 0 <= (ox + inner - (x + tw)) - (x - ox) <= 1
            &&& 0 <= (oy + inner - (y + th)) - (y - oy) <= 1
        }),
{
}

/// The selected row that a list reports, if any (a negative answer means none).
pub fn selected_row(sel: isize) -> (r: Option<usize>)
    ensures
        r == (if sel < 0 {
            None::<usize>
        } else {
            Some(sel as usize)
        }),
{
    if sel < 0 {
        None
    } else {
        Some(sel as usize)
    }
}

// ---------------------------------------------------------------------------
// Fonts and thumbnails
// ---------------------------------------------------------------------------

/// The logical font height for a size in points at a resolution (96 when the window
/// reports none): negative, so that it gives the character height.
pub open spec fn list_font_height_spec(size_pt: nat, dpi: nat) -> int {
    let d = if dpi == 0 { 96 } else { dpi };
    -((size_pt * d / 72) as int)
}

pub fn list_font_height(size_pt: u32, dpi: u32) -> (h: i32)
    requires
        size_pt * (if dpi == 0 { 96 } else { dpi }) <= u32::MAX,
    ensures
        h as int == list_font_height_spec(size_pt as nat, dpi as nat),
{
    let d = if dpi == 0 {
        96
    } else {
        dpi
    };
    let q = size_pt * d / 72;
    assert(q <= u32::MAX / 72);
    -(q as i32)
}

/// Where a thumbnail of `tw` by `th` is drawn in the cell whose corner is `(ox, oy)`:
/// centred in the cell's inner square.
pub open spec fn thumb_origin_spec(ox: int, oy: int, tw: int, th: int) -> (int, int) {
    let inner = IMG_CELL - IMG_PAD;
    (ox + tdiv(inner - tw, 2), oy + tdiv(inner - th, 2))
}

pub fn thumb_origin(ox: i32, oy: i32, tw: i32, th: i32) -> (r: (i32, i32))
    requires
        fits_i32((IMG_CELL - IMG_PAD) - tw),
        fits_i32((IMG_CELL - IMG_PAD) - th),
        fits_i32(ox + tdiv((IMG_CELL - IMG_PAD) - tw, 2)),
        fits_i32(oy + tdiv((IMG_CELL - IMG_PAD) - th, 2)),
    ensures
        (r.0 as int, r.1 as int) == thumb_origin_spec(ox as int, oy as int, tw as int, th as int),
{
    let inner = IMG_CELL - IMG_PAD;
    (ox + (inner - tw) / 2, oy + (inner - th) / 2)
}

} // verus!
