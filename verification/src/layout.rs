//! Screen geometry of the interface: the top bar, the menus, and the folder
//! map that splits an area by the bytes each child holds.
use vstd::prelude::*;
use crate::storage::{item_views, report_order, sort_items, ItemView, StorageItem};
use crate::sort::merge_sort;

verus! {

/// A rectangle of terminal cells, with the fields of `ratatui::layout::Rect`.
#[derive(Clone, Copy, Debug, PartialEq, Eq, Structural)]
pub struct Rect {
    pub x: u16,
    pub y: u16,
    pub width: u16,
    pub height: u16,
}

/// `width` clipped so that `x + width` stays within `u16`.
pub open spec fn clip(x: u16, width: u16) -> u16 {
    if width > u16::MAX - x {
        (u16::MAX - x) as u16
    } else {
        width
    }
}

/// The rectangle that `Rect::new(x, y, width, height)` builds.
pub open spec fn rect_of(x: u16, y: u16, width: u16, height: u16) -> Rect {
    Rect { x, y, width: clip(x, width), height: clip(y, height) }
}

/// `ratatui::layout::Rect::new`, which clips the width and height so that
/// the right and bottom edges stay within `u16`; returns its fields.
#[verifier::external_body]
fn ratatui_rect_new(x: u16, y: u16, width: u16, height: u16) -> (res: (u16, u16, u16, u16))
    ensures
        res == (x, y, clip(x, width), clip(y, height)),
{
    let r = ratatui::layout::Rect::new(x, y, width, height);
    (r.x, r.y, r.width, r.height)
}

/// `ratatui::layout::Rect::inner`: the rectangle shrunk by a margin on each
/// side, or the empty rectangle when the margins do not fit.
pub open spec fn inner_of(r: Rect, horizontal: u16, vertical: u16) -> Rect {
    let dh = double16(horizontal);
    let dv = double16(vertical);
    if r.width < dh || r.height < dv {
        Rect { x: 0, y: 0, width: 0, height: 0 }
    } else {
        Rect {
            x: sat_add16(r.x, horizontal),
            y: sat_add16(r.y, vertical),
            width: (r.width - dh) as u16,
            height: (r.height - dv) as u16,
        }
    }
}

/// `ratatui::layout::Rect::inner` with the given margins; returns the
/// fields of the shrunk rectangle.
#[verifier::external_body]
fn ratatui_rect_inner(r: Rect, horizontal: u16, vertical: u16) -> (res: (u16, u16, u16, u16))
    ensures
        res == (
            inner_of(r, horizontal, vertical).x,
            inner_of(r, horizontal, vertical).y,
            inner_of(r, horizontal, vertical).width,
            inner_of(r, horizontal, vertical).height,
        ),
{
    let outer = ratatui::layout::Rect { x: r.x, y: r.y, width: r.width, height: r.height };
    let shrunk = outer.inner(ratatui::layout::Margin { horizontal, vertical });
    (shrunk.x, shrunk.y, shrunk.width, shrunk.height)
}

/// The right edge `x + width` saturated at `u16::MAX`.
pub open spec fn right_of(r: Rect) -> int {
    if r.x + r.width > u16::MAX {
        u16::MAX as int
    } else {
        r.x + r.width
    }
}

/// The bottom edge `y + height` saturated at `u16::MAX`.
pub open spec fn bottom_of(r: Rect) -> int {
    if r.y + r.height > u16::MAX {
        u16::MAX as int
    } else {
        r.y + r.height
    }
}

/// A rectangle whose edges fit in `u16`, as every `Rect::new` result does.
pub open spec fn fits(r: Rect) -> bool {
    r.x + r.width <= u16::MAX && r.y + r.height <= u16::MAX
}

impl Rect {
    /// A rectangle, clipped as `ratatui::layout::Rect::new` clips it.
    pub fn new(x: u16, y: u16, width: u16, height: u16) -> (res: Rect)
        ensures
            res == rect_of(x, y, width, height),
            fits(res),
    {
        let (x, y, width, height) = ratatui_rect_new(x, y, width, height);
        Rect { x, y, width, height }
    }

    /// The empty rectangle at the origin.
    pub fn zero() -> (res: Rect)
        ensures
            res == (Rect { x: 0, y: 0, width: 0, height: 0 }),
    {
        Rect { x: 0, y: 0, width: 0, height: 0 }
    }

    /// The right edge.
    pub fn right(&self) -> (res: u16)
        ensures
            res == right_of(*self),
    {
        self.x.saturating_add(self.width)
    }

    /// The bottom edge.
    pub fn bottom(&self) -> (res: u16)
        ensures
            res == bottom_of(*self),
    {
        self.y.saturating_add(self.height)
    }
}

impl Default for Rect {
    fn default() -> (res: Rect)
        ensures
            res == (Rect { x: 0, y: 0, width: 0, height: 0 }),
    {
        Rect::zero()
    }
}

/// Rows taken by the top bar.
pub const TOP_BAR_HEIGHT: u16 = 3;

/// Narrowest terminal the interface draws in.
pub const MIN_WIDTH: u16 = 60;

/// Shortest terminal the interface draws in.
pub const MIN_HEIGHT: u16 = 16;

/// `a - b`, or zero.
pub open spec fn sat_sub16(a: u16, b: u16) -> u16 {
    if a >= b {
        (a - b) as u16
    } else {
        0
    }
}

/// `a + b`, or `u16::MAX`.
pub open spec fn sat_add16(a: u16, b: u16) -> u16 {
    if a + b > u16::MAX {
        u16::MAX
    } else {
        (a + b) as u16
    }
}

/// The area below the top bar: the single geometry source for painting and
/// pointer navigation.
pub fn content_area(area: Rect) -> (res: Rect)
    ensures
        res == rect_of(area.x, sat_add16(area.y, TOP_BAR_HEIGHT), area.width, sat_sub16(
            area.height,
            TOP_BAR_HEIGHT,
        )),
{
    Rect::new(
        area.x,
        area.y.saturating_add(TOP_BAR_HEIGHT),
        area.width,
        area.height.saturating_sub(TOP_BAR_HEIGHT),
    )
}

/// Width of the title in the top bar.
pub open spec fn title_width(width: u16) -> int {
    if width >= 90 {
        16
    } else {
        14
    }
}

/// Width of the `i`-th top menu item.
pub open spec fn menu_item_width(width: u16, i: int) -> int {
    if width >= 90 {
        if i == 2 {
            16
        } else {
            20
        }
    } else {
        if i == 2 {
            13
        } else {
            14
        }
    }
}

/// The left edge of the `index`-th top menu item relative to the bar.
pub open spec fn menu_item_offset(width: u16, index: int) -> int {
    title_width(width) + (if index >= 1 {
        menu_item_width(width, 0)
    } else {
        0
    }) + (if index >= 2 {
        menu_item_width(width, 1)
    } else {
        0
    }) + (if index >= 3 {
        menu_item_width(width, 2)
    } else {
        0
    })
}

/// Where the `index`-th item of the top bar is drawn; indexes past the last
/// item land just after it, with the last item's width.
pub fn top_menu_item_area(area: Rect, index: usize) -> (res: Rect)
    requires
        area.x + menu_item_offset(area.width, index as int) <= u16::MAX,
    ensures
        res == rect_of(
            (area.x + menu_item_offset(area.width, index as int)) as u16,
            area.y,
            menu_item_width(area.width, if index < 2 {
                index as int
            } else {
                2
            }) as u16,
            1,
        ),
{
    let wide = area.width >= 90;
    let title: u16 = if wide {
        16
    } else {
        14
    };
    let widths: [u16; 3] = if wide {
        [20, 20, 16]
    } else {
        [14, 14, 13]
    };
    let count = if index < 3 {
        index
    } else {
        3
    };
    let mut offset: u16 = title;
    let mut i: usize = 0;
    while i < count
        invariant
            count <= 3,
            i <= count,
            count == (if index < 3 {
                index
            } else {
                3
            }),
            widths@ == (if wide {
                seq![20u16, 20, 16]
            } else {
                seq![14u16, 14, 13]
            }),
            wide == (area.width >= 90),
            offset as int == title_width(area.width) + (if i >= 1 {
                menu_item_width(area.width, 0)
            } else {
                0
            }) + (if i >= 2 {
                menu_item_width(area.width, 1)
            } else {
                0
            }) + (if i >= 3 {
                menu_item_width(area.width, 2)
            } else {
                0
            }),
        decreases count - i,
    {
        offset = offset + widths[i];
        i = i + 1;
    }
    let last = if index < 2 {
        index
    } else {
        2
    };
    Rect::new(area.x + offset, area.y, widths[last], 1)
}

/// Whether the cell at (`column`, `row`) lies inside `area`.
pub open spec fn contains(area: Rect, column: u16, row: u16) -> bool {
    column >= area.x && column < right_of(area) && row >= area.y && row < bottom_of(area)
}

/// Whether the cell at (`column`, `row`) lies inside `area`.
pub fn rect_contains(area: Rect, column: u16, row: u16) -> (res: bool)
    ensures
        res == contains(area, column, row),
{
    column >= area.x && column < area.right() && row >= area.y && row < area.bottom()
}

/// The area of the top-bar item `j` in a terminal `width` cells wide.
pub open spec fn nav_rect(width: u16, j: int) -> Rect {
    rect_of(menu_item_offset(width, j) as u16, 0, menu_item_width(width, j) as u16, 1)
}

/// The first of the three top-bar items whose area holds the cell.
pub open spec fn top_item_at(column: u16, row: u16, width: u16) -> Option<usize> {
    if contains(nav_rect(width, 0), column, row) {
        Some(0)
    } else if contains(nav_rect(width, 1), column, row) {
        Some(1)
    } else if contains(nav_rect(width, 2), column, row) {
        Some(2)
    } else {
        None
    }
}

/// The top-bar item under the cell at (`column`, `row`) in a terminal
/// `width` cells wide: the first of the three items whose area holds it.
pub fn navigation_at(column: u16, row: u16, width: u16) -> (res: Option<usize>)
    ensures
        res == top_item_at(column, row, width),
        match res {
            Some(i) => i < 3 && contains(
                rect_of(menu_item_offset(width, i as int) as u16, 0, menu_item_width(width, i as int) as u16, 1),
                column,
                row,
            ) && forall|j: int|
                0 <= j < i ==> !contains(
                    #[trigger] rect_of(menu_item_offset(width, j) as u16, 0, menu_item_width(width, j) as u16, 1),
                    column,
                    row,
                ),
            None => forall|j: int|
                0 <= j < 3 ==> !contains(
                    #[trigger] rect_of(menu_item_offset(width, j) as u16, 0, menu_item_width(width, j) as u16, 1),
                    column,
                    row,
                ),
        },
{
    let area = Rect::new(0, 0, width, TOP_BAR_HEIGHT);
    let mut i: usize = 0;
    while i < 3
        invariant
            i <= 3,
            area == rect_of(0, 0, width, TOP_BAR_HEIGHT),
            forall|j: int|
                0 <= j < i ==> !contains(
                    #[trigger] rect_of(menu_item_offset(width, j) as u16, 0, menu_item_width(width, j) as u16, 1),
                    column,
                    row,
                ),
        decreases 3 - i,
    {
        let r = top_menu_item_area(area, i);
        if rect_contains(r, column, row) {
            proof {
                assert(nav_rect(width, 0) == rect_of(menu_item_offset(width, 0) as u16, 0, menu_item_width(width, 0) as u16, 1));
                assert(nav_rect(width, 1) == rect_of(menu_item_offset(width, 1) as u16, 0, menu_item_width(width, 1) as u16, 1));
            }
            return Some(i);
        }
        i = i + 1;
    }
    proof {
        assert(nav_rect(width, 0) == rect_of(menu_item_offset(width, 0) as u16, 0, menu_item_width(width, 0) as u16, 1));
        assert(nav_rect(width, 1) == rect_of(menu_item_offset(width, 1) as u16, 0, menu_item_width(width, 1) as u16, 1));
        assert(nav_rect(width, 2) == rect_of(menu_item_offset(width, 2) as u16, 0, menu_item_width(width, 2) as u16, 1));
    }
    None
}

/// The top menus.
#[derive(Clone, Copy, Debug, PartialEq, Eq, Structural)]
pub enum MenuId {
    File,
    View,
    Actions,
    Help,
}

/// The position of a menu in the bar.
pub open spec fn menu_index(m: MenuId) -> int {
    match m {
        MenuId::File => 0,
        MenuId::View => 1,
        MenuId::Actions => 2,
        MenuId::Help => 3,
    }
}

/// The menu at a position, counted around the bar.
pub open spec fn menu_at(index: int) -> MenuId {
    let i = index % 4;
    if i == 0 {
        MenuId::File
    } else if i == 1 {
        MenuId::View
    } else if i == 2 {
        MenuId::Actions
    } else {
        MenuId::Help
    }
}

impl MenuId {
    /// The position of the menu in the bar.
    pub fn index(self) -> (res: usize)
        ensures
            res == menu_index(self),
    {
        match self {
            MenuId::File => 0,
            MenuId::View => 1,
            MenuId::Actions => 2,
            MenuId::Help => 3,
        }
    }

    /// The menu at `index`, counted around the bar.
    pub fn from_index(index: usize) -> (res: MenuId)
        ensures
            res == menu_at(index as int),
    {
        let i = index % 4;
        if i == 0 {
            MenuId::File
        } else if i == 1 {
            MenuId::View
        } else if i == 2 {
            MenuId::Actions
        } else {
            MenuId::Help
        }
    }

    /// The title of the menu.
    pub fn label(self) -> (res: &'static str)
        ensures
            res@ == match self {
                MenuId::File => "FILE"@,
                MenuId::View => "NAVIGATE"@,
                MenuId::Actions => "ACTIONS"@,
                MenuId::Help => "HELP"@,
            },
    {
        match self {
            MenuId::File => "FILE",
            MenuId::View => "NAVIGATE",
            MenuId::Actions => "ACTIONS",
            MenuId::Help => "HELP",
        }
    }

    /// The key that opens the menu.
    pub fn hotkey(self) -> (res: char)
        ensures
            res == match self {
                MenuId::File => 'F',
                MenuId::View => 'N',
                MenuId::Actions => 'A',
                MenuId::Help => 'H',
            },
    {
        match self {
            MenuId::File => 'F',
            MenuId::View => 'N',
            MenuId::Actions => 'A',
            MenuId::Help => 'H',
        }
    }
}

/// A menu's place in the bar, then its position, is the same menu.
pub proof fn lemma_menu_index_round_trip(m: MenuId)
    ensures
        menu_at(menu_index(m)) == m,
{
}

/// Where the drop-down of a menu with `item_count` items goes in `area`.
pub open spec fn popup_rect(area: Rect, item_count: int) -> Option<Rect> {
    let width = if sat_sub16(area.width, 2) < 44 {
        sat_sub16(area.width, 2)
    } else {
        44
    };
    let wanted = (item_count % 0x10000) + 2;
    let height = if wanted < sat_sub16(area.height, 1) {
        wanted
    } else {
        sat_sub16(area.height, 1) as int
    };
    if width < 12 || height < 3 {
        None
    } else {
        Some(rect_of((area.x + 1) as u16, (area.y + TOP_BAR_HEIGHT) as u16, width, height as u16))
    }
}

/// The drop-down of an open menu with `item_count` items: at most 44 cells
/// wide and as tall as its items allow, below the top bar; `None` when the
/// area is too small for it.
pub fn menu_popup_rect(area: Rect, _menu: MenuId, item_count: usize) -> (res: Option<Rect>)
    requires
        (item_count % 0x10000) + 2 <= u16::MAX,
        area.x + 1 <= u16::MAX,
        area.y + TOP_BAR_HEIGHT <= u16::MAX,
    ensures
        res == popup_rect(area, item_count as int),
{
    let width = area.width.saturating_sub(2);
    let width = if width < 44 {
        width
    } else {
        44
    };
    let count = (item_count % 0x10000) as u16;
    let wanted = count + 2;
    let room = area.height.saturating_sub(1);
    let height = if wanted < room {
        wanted
    } else {
        room
    };
    if width < 12 || height < 3 {
        return None;
    }
    Some(Rect::new(area.x + 1, area.y + TOP_BAR_HEIGHT, width, height))
}

// ---------------------------------------------------------------------------
// The folder map
// ---------------------------------------------------------------------------

/// The sum of the weights.
pub open spec fn weight_sum(w: Seq<u64>) -> int
    decreases w.len(),
{
    if w.len() == 0 {
        0
    } else {
        weight_sum(w.drop_last()) + w.last()
    }
}

/// `|a - b|`.
pub open spec fn abs_diff(a: int, b: int) -> int {
    if a >= b {
        a - b
    } else {
        b - a
    }
}

/// Where the weights are split in two: scanning the cut after each weight
/// but the last, the first cut whose left sum is closest to half the total.
pub open spec fn best_split(w: Seq<u64>, total: int, i: int, best: int, pivot: int) -> int
    decreases w.len() - 1 - i,
{
    if i < 0 || i >= w.len() - 1 {
        pivot
    } else {
        let d = abs_diff(2 * weight_sum(w.take(i + 1)), total);
        if d < best {
            best_split(w, total, i + 1, d, i + 1)
        } else {
            best_split(w, total, i + 1, best, pivot)
        }
    }
}

/// The cut of a list of at least two weights.
pub open spec fn split_point(w: Seq<u64>) -> int {
    best_split(w, weight_sum(w), 0, u128::MAX as int, 1)
}

pub proof fn lemma_best_split_range(w: Seq<u64>, total: int, i: int, best: int, pivot: int)
    requires
        w.len() >= 2,
        1 <= pivot < w.len(),
        0 <= i,
    ensures
        1 <= best_split(w, total, i, best, pivot) < w.len(),
    decreases w.len() - 1 - i,
{
    if i < w.len() - 1 {
        let d = abs_diff(2 * weight_sum(w.take(i + 1)), total);
        if d < best {
            lemma_best_split_range(w, total, i + 1, d, i + 1);
        } else {
            lemma_best_split_range(w, total, i + 1, best, pivot);
        }
    }
}

/// `2 * h`, or `u16::MAX`.
pub open spec fn double16(h: u16) -> int {
    if 2 * h > u16::MAX {
        u16::MAX as int
    } else {
        2 * h
    }
}

/// The empty rectangle.
pub open spec fn zero_rect() -> Rect {
    Rect { x: 0, y: 0, width: 0, height: 0 }
}

/// The rectangles of the folder map: the weights are split where the left
/// sum is closest to half, the area is cut across its longer physical side
/// (cells are about twice as tall as wide) in proportion, rounded to the
/// nearest cell, and each half is split again. A zero weight gets an empty
/// rectangle; no weight is inflated to a minimum size.
pub open spec fn treemap(w: Seq<u64>, area: Rect) -> Seq<Rect>
    decreases w.len(),
{
    if w.len() == 0 {
        Seq::empty()
    } else if w.len() == 1 {
        seq![
            if w[0] == 0 {
                zero_rect()
            } else {
                area
            },
        ]
    } else if weight_sum(w) == 0 {
        Seq::new(w.len(), |i: int| zero_rect())
    } else {
        let total = weight_sum(w);
        let pivot = split_point(w);
        proof {
            lemma_best_split_range(w, total, 0, u128::MAX as int, 1);
        }
        let weight = weight_sum(w.take(pivot));
        let horizontal = area.width >= double16(area.height);
        let length = if horizontal {
            area.width
        } else {
            area.height
        };
        let part = ((length * weight + total / 2) / total) as u16;
        let a = if horizontal {
            rect_of(area.x, area.y, part, area.height)
        } else {
            rect_of(area.x, area.y, area.width, part)
        };
        let b = if horizontal {
            rect_of((area.x + part) as u16, area.y, (area.width - part) as u16, area.height)
        } else {
            rect_of(area.x, (area.y + part) as u16, area.width, (area.height - part) as u16)
        };
        treemap(w.take(pivot), a) + treemap(w.skip(pivot), b)
    }
}

proof fn lemma_weight_sum_nonneg(w: Seq<u64>)
    ensures
        weight_sum(w) >= 0,
    decreases w.len(),
{
    if w.len() > 0 {
        lemma_weight_sum_nonneg(w.drop_last());
    }
}

proof fn lemma_weight_sum_prefix(w: Seq<u64>, k: int)
    requires
        0 <= k <= w.len(),
    ensures
        0 <= weight_sum(w.take(k)) <= weight_sum(w),
        weight_sum(w) == weight_sum(w.take(k)) + weight_sum(w.skip(k)),
    decreases w.len(),
{
    lemma_weight_sum_nonneg(w.take(k));
    if k == w.len() {
        assert(w.take(k) =~= w);
        assert(w.skip(k) =~= Seq::<u64>::empty());
    } else {
        lemma_weight_sum_prefix(w.drop_last(), k);
        assert(w.drop_last().take(k) =~= w.take(k));
        assert(w.skip(k).drop_last() =~= w.drop_last().skip(k));
        assert(w.skip(k).last() == w.last());
        lemma_weight_sum_nonneg(w.drop_last().skip(k));
    }
}

/// Sums `w[lo..hi]`.
fn sum_range(w: &[u64], lo: usize, hi: usize) -> (res: u128)
    requires
        lo <= hi <= w@.len(),
        weight_sum(w@) <= u128::MAX / 0x10000,
    ensures
        res == weight_sum(w@.subrange(lo as int, hi as int)),
{
    let mut total: u128 = 0;
    let mut i: usize = lo;
    while i < hi
        invariant
            lo <= i <= hi <= w@.len(),
            weight_sum(w@) <= u128::MAX / 0x10000,
            total == weight_sum(w@.subrange(lo as int, i as int)),
        decreases hi - i,
    {
        proof {
            assert(w@.subrange(lo as int, i + 1).drop_last() =~= w@.subrange(lo as int, i as int));
            lemma_sub_sum_bound(w@, lo as int, i + 1);
        }
        total = total + w[i] as u128;
        i = i + 1;
    }
    total
}

proof fn lemma_sub_sum_bound(w: Seq<u64>, lo: int, hi: int)
    requires
        0 <= lo <= hi <= w.len(),
    ensures
        0 <= weight_sum(w.subrange(lo, hi)) <= weight_sum(w),
{
    lemma_weight_sum_prefix(w, hi);
    lemma_weight_sum_prefix(w.take(hi), lo);
    assert(w.take(hi).skip(lo) =~= w.subrange(lo, hi));
}

/// Appends the rectangles of the map of `w[lo..hi]` in `area` to `out`.
fn split_into(w: &[u64], lo: usize, hi: usize, area: Rect, out: &mut Vec<Rect>)
    requires
        lo <= hi <= w@.len(),
        weight_sum(w@) <= u128::MAX / 0x10000,
        fits(area),
    ensures
        final(out)@ == old(out)@ + treemap(w@.subrange(lo as int, hi as int), area),
    decreases hi - lo,
{
    let ghost ws = w@.subrange(lo as int, hi as int);
    if lo == hi {
        assert(treemap(ws, area) =~= Seq::<Rect>::empty());
        assert(out@ =~= old(out)@ + treemap(ws, area));
        return;
    }
    if hi - lo == 1 {
        let r = if w[lo] == 0 {
            Rect::zero()
        } else {
            area
        };
        out.push(r);
        assert(out@ =~= old(out)@ + treemap(ws, area));
        return;
    }
    let total = sum_range(w, lo, hi);
    proof {
        lemma_sub_sum_bound(w@, lo as int, hi as int);
    }
    if total == 0 {
        let mut k: usize = lo;
        while k < hi
            invariant
                lo <= k <= hi,
                out@ == old(out)@ + Seq::new((k - lo) as nat, |i: int| zero_rect()),
            decreases hi - k,
        {
            out.push(Rect::zero());
            k = k + 1;
            assert(out@ =~= old(out)@ + Seq::new((k - lo) as nat, |i: int| zero_rect()));
        }
        assert(treemap(ws, area) =~= Seq::new(ws.len(), |i: int| zero_rect()));
        return;
    }
    // find the cut
    let mut left: u128 = 0;
    let mut pivot: usize = 1;
    let mut best: u128 = u128::MAX;
    let mut i: usize = 0;
    let n = hi - lo;
    while i < n - 1
        invariant
            n == hi - lo,
            n >= 2,
            lo + n <= w@.len(),
            ws == w@.subrange(lo as int, hi as int),
            weight_sum(w@) <= u128::MAX / 0x10000,
            total == weight_sum(ws),
            i <= n - 1,
            left == weight_sum(ws.take(i as int)),
            1 <= pivot < n,
            best_split(ws, total as int, 0, u128::MAX as int, 1) == best_split(
                ws,
                total as int,
                i as int,
                best as int,
                pivot as int,
            ),
        decreases n - 1 - i,
    {
        proof {
            assert(ws.take(i + 1).drop_last() =~= ws.take(i as int));
            lemma_weight_sum_prefix(ws, i + 1);
            lemma_sub_sum_bound(w@, lo as int, hi as int);
        }
        left = left + w[lo + i] as u128;
        let twice = 2 * left;
        let distance = if twice >= total {
            twice - total
        } else {
            total - twice
        };
        if distance < best {
            best = distance;
            pivot = i + 1;
        }
        i = i + 1;
    }
    proof {
        lemma_best_split_range(ws, total as int, 0, u128::MAX as int, 1);
    }
    let weight = sum_range(w, lo, lo + pivot);
    proof {
        assert(w@.subrange(lo as int, lo + pivot) =~= ws.take(pivot as int));
        lemma_weight_sum_prefix(ws, pivot as int);
    }
    let doubled: u16 = if area.height > 32767 {
        u16::MAX
    } else {
        area.height * 2
    };
    let horizontal = area.width >= doubled;
    let length: u16 = if horizontal {
        area.width
    } else {
        area.height
    };
    proof {
        assert((length as int) * (weight as int) <= 0xffff * (weight as int)) by (nonlinear_arith)
            requires
                length <= 0xffff,
                weight >= 0,
        ;
        assert((length as int) * (weight as int) <= (length as int) * (total as int)) by (nonlinear_arith)
            requires
                length >= 0,
                weight <= total,
        ;
        assert(((length as int) * (weight as int) + (total as int) / 2) / (total as int) <= length as int) by (nonlinear_arith)
            requires
                (length as int) * (weight as int) <= (length as int) * (total as int),
                total > 0,
        ;
    }
    let scaled: u128 = (length as u128) * weight + total / 2;
    let part_wide: u128 = scaled / total;
    let part: u16 = part_wide as u16;
    let (a, b) = if horizontal {
        (
            Rect::new(area.x, area.y, part, area.height),
            Rect::new(area.x + part, area.y, area.width - part, area.height),
        )
    } else {
        (
            Rect::new(area.x, area.y, area.width, part),
            Rect::new(area.x, area.y + part, area.width, area.height - part),
        )
    };
    let ghost before = out@;
    split_into(w, lo, lo + pivot, a, out);
    split_into(w, lo + pivot, hi, b, out);
    proof {
        assert(w@.subrange((lo + pivot) as int, hi as int) =~= ws.skip(pivot as int));
        assert(ws.len() >= 2);
        assert(treemap(ws, area) == treemap(ws.take(pivot as int), a) + treemap(ws.skip(pivot as int), b));
        assert(out@ =~= before + treemap(ws, area));
    }
}

/// The rectangles of the folder map of `weights` in `area`, one per weight
/// and in the same order.
pub fn map_rects(weights: &[u64], area: Rect) -> (res: Vec<Rect>)
    requires
        weight_sum(weights@) <= u128::MAX / 0x10000,
        fits(area),
    ensures
        res@ == treemap(weights@, area),
{
    let mut result: Vec<Rect> = Vec::new();
    split_into(weights, 0, weights.len(), area, &mut result);
    assert(weights@.subrange(0, weights@.len() as int) =~= weights@);
    assert(result@ =~= treemap(weights@, area));
    result
}


/// `r` is the empty rectangle or lies within `area`.
pub open spec fn placed_within(r: Rect, area: Rect) -> bool {
    ||| r == zero_rect()
    ||| (area.x <= r.x && r.x + r.width <= area.x + area.width && area.y <= r.y && r.y
        + r.height <= area.y + area.height)
}

proof fn lemma_part_bound(length: int, weight: int, total: int)
    requires
        0 <= length,
        0 <= weight <= total,
        total > 0,
    ensures
        0 <= (length * weight + total / 2) / total <= length,
{
    assert(length * weight <= length * total) by (nonlinear_arith)
        requires
            0 <= length,
            weight <= total,
    ;
    assert(0 <= length * weight) by (nonlinear_arith)
        requires
            0 <= length,
            0 <= weight,
    ;
    assert((length * weight + total / 2) / total <= length) by (nonlinear_arith)
        requires
            length * weight <= length * total,
            total > 0,
    ;
    assert(0 <= (length * weight + total / 2) / total) by (nonlinear_arith)
        requires
            0 <= length * weight,
            total > 0,
    ;
}

/// The folder map gives one rectangle per weight, and each one is empty or
/// lies within the area that was split.
pub proof fn lemma_map_rects_shape(w: Seq<u64>, area: Rect)
    requires
        fits(area),
    ensures
        treemap(w, area).len() == w.len(),
        forall|i: int|
            0 <= i < w.len() ==> #[trigger] placed_within(treemap(w, area)[i], area),
    decreases w.len(),
{
    if w.len() >= 2 && weight_sum(w) != 0 {
        let total = weight_sum(w);
        let pivot = split_point(w);
        lemma_best_split_range(w, total, 0, u128::MAX as int, 1);
        lemma_weight_sum_prefix(w, pivot);
        let weight = weight_sum(w.take(pivot));
        let horizontal = area.width >= double16(area.height);
        let length: int = if horizontal {
            area.width as int
        } else {
            area.height as int
        };
        lemma_part_bound(length, weight, total);
        let part = ((length * weight + total / 2) / total) as u16;
        let a = if horizontal {
            rect_of(area.x, area.y, part, area.height)
        } else {
            rect_of(area.x, area.y, area.width, part)
        };
        let b = if horizontal {
            rect_of((area.x + part) as u16, area.y, (area.width - part) as u16, area.height)
        } else {
            rect_of(area.x, (area.y + part) as u16, area.width, (area.height - part) as u16)
        };
        lemma_map_rects_shape(w.take(pivot), a);
        lemma_map_rects_shape(w.skip(pivot), b);
        assert(treemap(w, area) == treemap(w.take(pivot), a) + treemap(w.skip(pivot), b));
        let left = treemap(w.take(pivot), a);
        let right = treemap(w.skip(pivot), b);
        assert forall|i: int| 0 <= i < w.len() implies #[trigger] placed_within(
            treemap(w, area)[i],
            area,
        ) by {
            if i < pivot {
                assert(placed_within(left[i], a));
            } else {
                assert(placed_within(right[i - pivot], b));
            }
        }
    } else if w.len() >= 2 {
        assert forall|i: int| 0 <= i < w.len() implies #[trigger] placed_within(
            treemap(w, area)[i],
            area,
        ) by {
            assert(treemap(w, area)[i] == zero_rect());
        }
    }
}

/// Two rectangles share no cell.
pub open spec fn apart(r: Rect, s: Rect) -> bool {
    ||| r.width == 0 || r.height == 0 || s.width == 0 || s.height == 0
    ||| r.x + r.width <= s.x || s.x + s.width <= r.x
    ||| r.y + r.height <= s.y || s.y + s.height <= r.y
}

/// No two rectangles of the folder map share a cell.
pub proof fn lemma_map_rects_apart(w: Seq<u64>, area: Rect)
    requires
        fits(area),
    ensures
        forall|i: int, j: int|
            0 <= i < j < w.len() ==> apart(#[trigger] treemap(w, area)[i], #[trigger] treemap(w, area)[j]),
    decreases w.len(),
{
    lemma_map_rects_shape(w, area);
    if w.len() >= 2 && weight_sum(w) != 0 {
        let total = weight_sum(w);
        let pivot = split_point(w);
        lemma_best_split_range(w, total, 0, u128::MAX as int, 1);
        lemma_weight_sum_prefix(w, pivot);
        let weight = weight_sum(w.take(pivot));
        let horizontal = area.width >= double16(area.height);
        let length: int = if horizontal {
            area.width as int
        } else {
            area.height as int
        };
        lemma_part_bound(length, weight, total);
        let part = ((length * weight + total / 2) / total) as u16;
        let a = if horizontal {
            rect_of(area.x, area.y, part, area.height)
        } else {
            rect_of(area.x, area.y, area.width, part)
        };
        let b = if horizontal {
            rect_of((area.x + part) as u16, area.y, (area.width - part) as u16, area.height)
        } else {
            rect_of(area.x, (area.y + part) as u16, area.width, (area.height - part) as u16)
        };
        lemma_map_rects_shape(w.take(pivot), a);
        lemma_map_rects_shape(w.skip(pivot), b);
        lemma_map_rects_apart(w.take(pivot), a);
        lemma_map_rects_apart(w.skip(pivot), b);
        let left = treemap(w.take(pivot), a);
        let right = treemap(w.skip(pivot), b);
        assert(treemap(w, area) == left + right);
        assert forall|i: int, j: int| 0 <= i < j < w.len() implies apart(
            #[trigger] treemap(w, area)[i],
            #[trigger] treemap(w, area)[j],
        ) by {
            if j < pivot {
                assert(apart(left[i], left[j]));
            } else if i >= pivot {
                assert(apart(right[i - pivot], right[j - pivot]));
            } else {
                assert(placed_within(left[i], a));
                assert(placed_within(right[j - pivot], b));
            }
        }
    } else if w.len() >= 2 {
        assert forall|i: int, j: int| 0 <= i < j < w.len() implies apart(
            #[trigger] treemap(w, area)[i],
            #[trigger] treemap(w, area)[j],
        ) by {
            assert(treemap(w, area)[i] == zero_rect());
        }
    }
}

/// The cells a rectangle covers.
pub open spec fn cells(r: Rect) -> int {
    r.width * r.height
}

/// The cells the rectangles cover together, counted one by one.
pub open spec fn cells_sum(rs: Seq<Rect>) -> int
    decreases rs.len(),
{
    if rs.len() == 0 {
        0
    } else {
        cells_sum(rs.drop_last()) + cells(rs.last())
    }
}

proof fn lemma_cells_sum_add(l: Seq<Rect>, r: Seq<Rect>)
    ensures
        cells_sum(l + r) == cells_sum(l) + cells_sum(r),
    decreases r.len(),
{
    if r.len() == 0 {
        assert(l + r =~= l);
    } else {
        lemma_cells_sum_add(l, r.drop_last());
        assert((l + r).drop_last() =~= l + r.drop_last());
    }
}

proof fn lemma_cells_sum_empty(rs: Seq<Rect>)
    requires
        forall|i: int| 0 <= i < rs.len() ==> #[trigger] rs[i] == zero_rect(),
    ensures
        cells_sum(rs) == 0,
    decreases rs.len(),
{
    if rs.len() > 0 {
        assert forall|i: int| 0 <= i < rs.drop_last().len() implies #[trigger] rs.drop_last()[i]
            == zero_rect() by {
            assert(rs[i] == zero_rect());
        }
        lemma_cells_sum_empty(rs.drop_last());
        assert(rs[rs.len() - 1] == zero_rect());
        let z = rs.last();
        assert(z == zero_rect());
        assert(z.width == 0);
        assert(z.width * z.height == 0) by (nonlinear_arith)
            requires
                z.width == 0,
        ;
    }
}

proof fn lemma_map_rects_nothing(w: Seq<u64>, area: Rect)
    requires
        weight_sum(w) == 0,
    ensures
        cells_sum(treemap(w, area)) == 0,
{
    if w.len() == 1 {
        assert(w.drop_last() =~= Seq::<u64>::empty());
        assert(weight_sum(w.drop_last()) == 0);
        assert(w.last() == w[0]);
        assert(w[0] == 0);
        assert(treemap(w, area)[0] == zero_rect());
    }
    lemma_cells_sum_empty(treemap(w, area));
}

/// When some weight is not zero, the rectangles of the folder map cover
/// the whole area: their cells add up to the area's.
/// The two parts an area is cut into, `part` cells along its width when
/// `horizontal`, else along its height.
pub open spec fn first_part(area: Rect, horizontal: bool, part: u16) -> Rect {
    if horizontal {
        rect_of(area.x, area.y, part, area.height)
    } else {
        rect_of(area.x, area.y, area.width, part)
    }
}

pub open spec fn second_part(area: Rect, horizontal: bool, part: u16) -> Rect {
    if horizontal {
        rect_of((area.x + part) as u16, area.y, (area.width - part) as u16, area.height)
    } else {
        rect_of(area.x, (area.y + part) as u16, area.width, (area.height - part) as u16)
    }
}

proof fn lemma_parts_cover(area: Rect, horizontal: bool, part: u16)
    requires
        fits(area),
        part <= (if horizontal { area.width } else { area.height }),
    ensures
        cells(first_part(area, horizontal, part)) + cells(second_part(area, horizontal, part))
            == cells(area),
        part == 0 ==> cells(first_part(area, horizontal, part)) == 0 && second_part(
            area,
            horizontal,
            part,
        ) == area,
        part == (if horizontal { area.width } else { area.height }) ==> first_part(
            area,
            horizontal,
            part,
        ) == area && cells(second_part(area, horizontal, part)) == 0,
{
    let (w, h) = (area.width as int, area.height as int);
    let p = part as int;
    if horizontal {
        assert(p * h + (w - p) * h == w * h) by (nonlinear_arith);
        assert(0 * h == 0) by (nonlinear_arith);
    } else {
        assert(w * p + w * (h - p) == w * h) by (nonlinear_arith);
        assert(w * 0 == 0) by (nonlinear_arith);
    }
}

/// When some weight is not zero, the rectangles of the folder map cover
/// the whole area: their cells add up to the area's.
pub proof fn lemma_map_rects_cover(w: Seq<u64>, area: Rect)
    requires
        fits(area),
        weight_sum(w) > 0,
    ensures
        cells_sum(treemap(w, area)) == cells(area),
    decreases w.len(),
{
    if w.len() == 1 {
        assert(w.drop_last() =~= Seq::<u64>::empty());
        assert(weight_sum(w.drop_last()) == 0);
        assert(w.last() == w[0]);
        assert(w[0] > 0);
        assert(treemap(w, area) == seq![area]);
        assert(seq![area].drop_last() =~= Seq::<Rect>::empty());
        assert(cells_sum(seq![area]) == cells_sum(Seq::<Rect>::empty()) + cells(area));
    } else {
        let total = weight_sum(w);
        let pivot = split_point(w);
        lemma_best_split_range(w, total, 0, u128::MAX as int, 1);
        lemma_weight_sum_prefix(w, pivot);
        let weight = weight_sum(w.take(pivot));
        let horizontal = area.width >= double16(area.height);
        let length: int = if horizontal {
            area.width as int
        } else {
            area.height as int
        };
        lemma_part_bound(length, weight, total);
        let part = ((length * weight + total / 2) / total) as u16;
        let a = first_part(area, horizontal, part);
        let b = second_part(area, horizontal, part);
        let left = treemap(w.take(pivot), a);
        let right = treemap(w.skip(pivot), b);
        assert(treemap(w, area) == left + right);
        lemma_cells_sum_add(left, right);
        lemma_parts_cover(area, horizontal, part);
        if weight == 0 {
            assert((length * weight + total / 2) / total == 0) by (nonlinear_arith)
                requires
                    weight == 0,
                    total > 0,
            ;
            lemma_map_rects_nothing(w.take(pivot), a);
            lemma_map_rects_cover(w.skip(pivot), b);
        } else if weight == total {
            assert((length * weight + total / 2) / total == length) by (nonlinear_arith)
                requires
                    weight == total,
                    total > 0,
                    length >= 0,
            ;
            lemma_map_rects_cover(w.take(pivot), a);
            lemma_map_rects_nothing(w.skip(pivot), b);
        } else {
            lemma_map_rects_cover(w.take(pivot), a);
            lemma_map_rects_cover(w.skip(pivot), b);
        }
    }
}

// ---------------------------------------------------------------------------
// The tiles of the folder map
// ---------------------------------------------------------------------------

/// At most this many children get a tile of their own.
pub const MAX_TILES: usize = 10;

/// One tile of the folder map: a child, or the smaller children together,
/// or what the walk did not measure.
#[derive(Clone, Debug)]
pub struct Tile {
    pub item: Option<StorageItem>,
    pub size: u64,
    pub name: String,
}

/// What a tile shows.
pub ghost struct TileView {
    pub item: Option<ItemView>,
    pub size: u64,
    pub name: Seq<char>,
}

impl View for Tile {
    type V = TileView;

    open spec fn view(&self) -> TileView {
        TileView {
            item: match self.item {
                Some(i) => Some(i@),
                None => None,
            },
            size: self.size,
            name: self.name@,
        }
    }
}

/// The name of an item's tile: its file name, or its whole path when it has
/// none.
pub open spec fn item_name(path: Seq<char>) -> Seq<char> {
    match crate::path::file_name(path) {
        Some(n) => n,
        None => path,
    }
}

/// The children that hold something, largest first, equal sizes by path.
pub open spec fn tile_order(children: Seq<ItemView>) -> Seq<ItemView> {
    merge_sort(children.filter(|i: ItemView| i.size_kb > 0), report_order())
}

/// The sizes added up, stopping at `u64::MAX`.
pub open spec fn saturated_sum(items: Seq<ItemView>) -> int
    decreases items.len(),
{
    if items.len() == 0 {
        0
    } else {
        let s = saturated_sum(items.drop_last()) + items.last().size_kb;
        if s > u64::MAX {
            u64::MAX as int
        } else {
            s
        }
    }
}

/// The sizes added up.
pub open spec fn size_sum(items: Seq<ItemView>) -> int
    decreases items.len(),
{
    if items.len() == 0 {
        0
    } else {
        size_sum(items.drop_last()) + items.last().size_kb
    }
}

/// The tile of an item.
pub open spec fn item_tile(i: ItemView) -> TileView {
    TileView { item: Some(i), size: i.size_kb, name: item_name(i.path) }
}

/// The tiles of a folder of `parent_size` kilobytes: its ten largest
/// children, then the others together as "N smaller items", then what the
/// walk did not measure as "Other / unmeasured".
pub open spec fn folder_tiles(children: Seq<ItemView>, parent_size: u64) -> Seq<TileView> {
    let sorted = tile_order(children);
    let shown = if sorted.len() > MAX_TILES {
        MAX_TILES as int
    } else {
        sorted.len() as int
    };
    let top = sorted.take(shown).map_values(|i: ItemView| item_tile(i));
    let with_rest = if sorted.len() > MAX_TILES {
        top.push(
            TileView {
                item: None,
                size: size_sum(sorted.skip(MAX_TILES as int)) as u64,
                name: crate::text::decimal((sorted.len() - MAX_TILES) as nat) + " smaller items"@,
            },
        )
    } else {
        top
    };
    let measured = saturated_sum(sorted);
    if parent_size > measured {
        with_rest.push(
            TileView {
                item: None,
                size: (parent_size - measured) as u64,
                name: "Other / unmeasured"@,
            },
        )
    } else {
        with_rest
    }
}

/// The name of an item's tile.
fn tile_name(path: &str) -> (res: String)
    ensures
        res@ == item_name(path@),
{
    match crate::path::file_name_of(path) {
        Some(n) => crate::text::string_of(&n),
        None => crate::text::owned(path),
    }
}

proof fn lemma_size_sum_nonneg(items: Seq<ItemView>)
    ensures
        size_sum(items) >= 0,
    decreases items.len(),
{
    if items.len() > 0 {
        lemma_size_sum_nonneg(items.drop_last());
    }
}

proof fn lemma_size_sum_prefix(items: Seq<ItemView>, k: int)
    requires
        0 <= k <= items.len(),
    ensures
        0 <= size_sum(items.take(k)) <= size_sum(items),
    decreases items.len() - k,
{
    if k < items.len() {
        lemma_size_sum_prefix(items, k + 1);
        assert(items.take(k + 1).drop_last() =~= items.take(k));
    } else {
        assert(items.take(k) =~= items);
    }
    lemma_size_sum_nonneg(items.take(k));
}

/// The tiles of the folder map for the children of a folder of
/// `parent_size` kilobytes.
pub fn tiles(children: &Vec<StorageItem>, parent_size: u64) -> (res: Vec<Tile>)
    requires
        size_sum(tile_order(item_views(children@)).skip(MAX_TILES as int)) <= u64::MAX,
    ensures
        res@.map_values(|t: Tile| t@) == folder_tiles(item_views(children@), parent_size),
{
    let ghost keep = |i: ItemView| i.size_kb > 0;
    let ghost cv = item_views(children@);
    let mut nonzero: Vec<StorageItem> = Vec::new();
    let mut i: usize = 0;
    while i < children.len()
        invariant
            i <= children@.len(),
            cv == item_views(children@),
            keep == (|i: ItemView| i.size_kb > 0),
            item_views(nonzero@) == cv.take(i as int).filter(keep),
        decreases children@.len() - i,
    {
        proof {
            assert(cv.take(i + 1) =~= cv.take(i as int).push(cv[i as int]));
            cv.take(i as int).lemma_filter_push(cv[i as int], keep);
        }
        if children[i].size_kb > 0 {
            let ghost before = item_views(nonzero@);
            nonzero.push(children[i].duplicate());
            assert(item_views(nonzero@) =~= before.push(cv[i as int]));
        }
        i = i + 1;
    }
    assert(cv.take(children@.len() as int) =~= cv);
    let sorted = sort_items(nonzero);
    let ghost sv = item_views(sorted@);
    assert(sv == tile_order(cv));
    proof {
        crate::sort::lemma_merge_sort_len(cv.filter(keep), report_order());
    }
    let n = sorted.len();
    // what the walk measured, saturating
    let mut measured: u64 = 0;
    let mut k: usize = 0;
    while k < n
        invariant
            k <= n,
            n == sv.len(),
            sv == item_views(sorted@),
            measured == saturated_sum(sv.take(k as int)),
        decreases n - k,
    {
        assert(sv.take(k + 1).drop_last() =~= sv.take(k as int));
        measured = measured.saturating_add(sorted[k].size_kb);
        k = k + 1;
    }
    assert(sv.take(n as int) =~= sv);
    let shown: usize = if n > MAX_TILES {
        MAX_TILES
    } else {
        n
    };
    let mut result: Vec<Tile> = Vec::new();
    let mut j: usize = 0;
    while j < shown
        invariant
            j <= shown <= n,
            n == sv.len(),
            sv == item_views(sorted@),
            result@.map_values(|t: Tile| t@) == sv.take(j as int).map_values(
                |i: ItemView| item_tile(i),
            ),
        decreases shown - j,
    {
        let item = sorted[j].duplicate();
        let name = tile_name(sorted[j].path.as_str());
        let ghost before = result@.map_values(|t: Tile| t@);
        let tile = Tile { item: Some(item), size: sorted[j].size_kb, name };
        result.push(tile);
        assert(sv.take(j + 1) =~= sv.take(j as int).push(sv[j as int]));
        assert(result@.map_values(|t: Tile| t@) =~= before.push(item_tile(sv[j as int])));
        assert(sv.take(j + 1).map_values(|i: ItemView| item_tile(i)) =~= sv.take(
            j as int,
        ).map_values(|i: ItemView| item_tile(i)).push(item_tile(sv[j as int])));
        j = j + 1;
    }
    if n > MAX_TILES {
        let ghost rest = sv.skip(MAX_TILES as int);
        let mut total: u64 = 0;
        let mut r: usize = MAX_TILES;
        while r < n
            invariant
                MAX_TILES <= r <= n,
                n == sv.len(),
                sv == item_views(sorted@),
                rest == sv.skip(MAX_TILES as int),
                size_sum(rest) <= u64::MAX,
                total == size_sum(rest.take(r - MAX_TILES)),
            decreases n - r,
        {
            proof {
                assert(rest.take(r - MAX_TILES + 1).drop_last() =~= rest.take(r - MAX_TILES));
                assert(rest[r - MAX_TILES] == sv[r as int]);
                lemma_size_sum_prefix(rest, r - MAX_TILES + 1);
            }
            total = total + sorted[r].size_kb;
            r = r + 1;
        }
        assert(rest.take(n - MAX_TILES) =~= rest);
        let mut name = crate::text::decimal_chars((n - MAX_TILES) as u64);
        crate::text::append_str(&mut name, " smaller items");
        let ghost before = result@.map_values(|t: Tile| t@);
        result.push(Tile { item: None, size: total, name: crate::text::string_of(&name) });
        assert(result@.map_values(|t: Tile| t@) =~= before.push(
            TileView {
                item: None,
                size: size_sum(rest) as u64,
                name: crate::text::decimal((n - MAX_TILES) as nat) + " smaller items"@,
            },
        ));
    }
    if parent_size > measured {
        let ghost before = result@.map_values(|t: Tile| t@);
        result.push(
            Tile {
                item: None,
                size: parent_size - measured,
                name: crate::text::owned("Other / unmeasured"),
            },
        );
        assert(result@.map_values(|t: Tile| t@) =~= before.push(
            TileView { item: None, size: (parent_size - measured) as u64, name: "Other / unmeasured"@ },
        ));
    }
    result
}

// ---------------------------------------------------------------------------
// Dialogs
// ---------------------------------------------------------------------------

/// A dialog `percent_x` percent as wide as `area` (rounded down) and
/// `height` rows tall (at most the area's height), centred in `area`.
pub open spec fn centered(percent_x: u16, height: u16, area: Rect) -> Rect {
    let width: u16 = if area.width * percent_x > u16::MAX {
        (u16::MAX / 100) as u16
    } else {
        ((area.width * percent_x) / 100) as u16
    };
    let h: u16 = if height < area.height {
        height
    } else {
        area.height
    };
    inner_of(
        rect_of(
            (area.x + sat_sub16(area.width, width) / 2) as u16,
            (area.y + sat_sub16(area.height, h) / 2) as u16,
            width,
            h,
        ),
        0,
        0,
    )
}

/// The area of a centred dialog.
pub fn centered_rect(percent_x: u16, height: u16, area: Rect) -> (res: Rect)
    requires
        fits(area),
    ensures
        res == centered(percent_x, height, area),
{
    assert((area.width as int) * (percent_x as int) <= 0xffff * 0xffff) by (nonlinear_arith)
        requires
            area.width <= 0xffff,
            percent_x <= 0xffff,
    ;
    let product: u32 = (area.width as u32) * (percent_x as u32);
    let width: u16 = if product > 65535 {
        65535 / 100
    } else {
        (product / 100) as u16
    };
    let h: u16 = if height < area.height {
        height
    } else {
        area.height
    };
    let dx: u16 = if area.width > width {
        (area.width - width) / 2
    } else {
        0
    };
    let dy: u16 = (area.height - h) / 2;
    let r = Rect::new(area.x + dx, area.y + dy, width, h);
    let (x, y, w, hh) = ratatui_rect_inner(r, 0, 0);
    Rect { x, y, width: w, height: hh }
}

// ---------------------------------------------------------------------------
// Clickable table rows
// ---------------------------------------------------------------------------

/// The rows of a bordered table that are on screen, from row `index` drawn
/// at line `y` on: each with its area, inside the side borders and cut at
/// the bottom border, and its position in the table.
pub open spec fn table_rows(area: Rect, y: int, index: int, count: int, row_height: u16) -> Seq<
    (Rect, usize),
>
    decreases count - index,
{
    let floor = sat_sub16(bottom_of(area) as u16, 1);
    if index >= count || y >= floor {
        Seq::empty()
    } else {
        let height = if (row_height as int) < bottom_of(area) - 1 - y {
            row_height as int
        } else {
            bottom_of(area) - 1 - y
        };
        seq![
            (
                rect_of((area.x + 1) as u16, y as u16, sat_sub16(area.width, 2), height as u16),
                index as usize,
            ),
        ] + table_rows(area, y + row_height, index + 1, count, row_height)
    }
}

/// The clickable areas of the rows of a bordered table scrolled to row
/// `offset`, below a header `header_height` lines tall: one per row that
/// is on screen, with the row's position.
pub fn table_hits(area: Rect, offset: usize, count: usize, row_height: u16, header_height: u16) -> (res: Vec<(Rect, usize)>)
    requires
        area.x + 1 <= u16::MAX,
        area.y + 1 + header_height <= u16::MAX,
        bottom_of(area) + row_height <= u16::MAX,
    ensures
        res@ == table_rows(area, area.y + 1 + header_height, offset as int, count as int, row_height),
{
    let mut res: Vec<(Rect, usize)> = Vec::new();
    let mut y: u16 = area.y + 1 + header_height;
    let mut index = offset;
    let floor = area.bottom().saturating_sub(1);
    while index < count
        invariant
            area.x + 1 <= u16::MAX,
            bottom_of(area) + row_height <= u16::MAX,
            floor == sat_sub16(bottom_of(area) as u16, 1),
            offset <= index || count <= index,
            res@ + table_rows(area, y as int, index as int, count as int, row_height) == table_rows(
                area,
                area.y + 1 + header_height,
                offset as int,
                count as int,
                row_height,
            ),
        ensures
            index >= count || y >= floor,
            res@ + table_rows(area, y as int, index as int, count as int, row_height) == table_rows(
                area,
                area.y + 1 + header_height,
                offset as int,
                count as int,
                row_height,
            ),
        decreases count - index,
    {
        if y >= floor {
            break;
        }
        let height = if row_height < area.bottom() - 1 - y {
            row_height
        } else {
            area.bottom() - 1 - y
        };
        let r = Rect::new(area.x + 1, y, area.width.saturating_sub(2), height);
        let ghost before = res@;
        res.push((r, index));
        proof {
            let rest = table_rows(area, y + row_height, index + 1, count as int, row_height);
            assert(table_rows(area, y as int, index as int, count as int, row_height) == seq![(r, index)] + rest);
            assert(res@ + rest =~= before + (seq![(r, index)] + rest));
        }
        y = y + row_height;
        index = index + 1;
    }
    proof {
        assert(table_rows(area, y as int, index as int, count as int, row_height) =~= Seq::empty());
        assert(res@ + Seq::<(Rect, usize)>::empty() =~= res@);
    }
    res
}

/// Where the scrollbar of a bordered view goes: between its top and bottom
/// border, when the content is longer than the rows the view shows and the
/// view has some width; `None` when no scrollbar is drawn.
pub fn scrollbar_area(area: Rect, content_length: usize) -> (res: Option<Rect>)
    ensures
        res == (if content_length == 0 || content_length <= sat_sub16(area.height, 3)
            || area.width == 0 {
            None
        } else {
            Some(inner_of(area, 0, 1))
        }),
{
    let viewport = area.height.saturating_sub(3) as usize;
    if content_length == 0 || content_length <= viewport || area.width == 0 {
        return None;
    }
    let (x, y, width, height) = ratatui_rect_inner(area, 0, 1);
    Some(Rect { x, y, width, height })
}

} // verus!
