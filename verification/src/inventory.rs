//! What the inventory macros read off a picture of the screen.
//!
//! The inventory is a grid of 12 columns and 5 rows; slot `k` lies in column `k / 5` and
//! row `k % 5`. Each slot is sampled at one pixel. A quad stash tab is a grid of 24 by 24
//! cells, sampled at three pixels of each cell.

use vstd::prelude::*;

use crate::quad::{known_height, left_edge, left_edge_of, row_line, row_line_of, CELLS};
use crate::screenshot::{FrameView, ScreenshotData};

verus! {

/// The slots of the inventory.
pub const SLOTS: usize = 60;

/// The colour that marks a selected cell of a stash tab.
pub const SELECT_COLOR: u32 = 3887364095;

/// The screen column at which slot `k` is sampled.
pub open spec fn slot_column(inv_loc: (u32, u32), inv_delta: u32, k: int) -> int {
    (k / 5) * inv_delta + inv_loc.0
}

/// The screen line at which slot `k` is sampled.
pub open spec fn slot_line(inv_loc: (u32, u32), inv_delta: u32, k: int) -> int {
    (k % 5) * inv_delta + inv_loc.1
}

/// Whether every slot is sampled inside the picture, at coordinates that fit 32 bits.
pub open spec fn inventory_on_screen(frame: FrameView, inv_loc: (u32, u32), inv_delta: u32) -> bool {
    &&& 11 * inv_delta + inv_loc.0 <= u32::MAX
    &&& 4 * inv_delta + inv_loc.1 <= u32::MAX
    &&& 11 * inv_delta + inv_loc.0 < frame.width
    &&& 4 * inv_delta + inv_loc.1 < frame.height
}

/// The colour of slot `k` in the picture.
pub open spec fn slot_color(frame: FrameView, inv_loc: (u32, u32), inv_delta: u32, k: int) -> u32 {
    frame.pixel(slot_column(inv_loc, inv_delta, k), slot_line(inv_loc, inv_delta, k))
}

/// Where to click to empty the first `k` slots: the sample point of each slot that lies
/// in a column from `start_slot / 5` on and in a row from `start_slot % 5` on, and whose
/// colour is not the one remembered for it.
pub open spec fn slots_to_empty(
    frame: FrameView,
    inv_colors: Seq<u32>,
    start_slot: u32,
    inv_loc: (u32, u32),
    inv_delta: u32,
    k: int,
) -> Seq<(u32, u32)>
    decreases k,
{
    if k <= 0 {
        Seq::empty()
    } else {
        let before = slots_to_empty(frame, inv_colors, start_slot, inv_loc, inv_delta, k - 1);
        let s = k - 1;
        if s / 5 >= start_slot / 5 && s % 5 >= start_slot % 5 && slot_color(
            frame,
            inv_loc,
            inv_delta,
            s,
        ) != inv_colors[s] {
            before.push(
                (
                    slot_column(inv_loc, inv_delta, s) as u32,
                    slot_line(inv_loc, inv_delta, s) as u32,
                ),
            )
        } else {
            before
        }
    }
}

/// Whether every slot is sampled inside the picture, at coordinates that fit 32 bits.
pub fn inventory_fits(frame: &ScreenshotData, inv_loc: (u32, u32), inv_delta: u32) -> (r: bool)
    ensures
        r == inventory_on_screen(frame@, inv_loc, inv_delta),
{
    let last_column: u64 = 11 * (inv_delta as u64) + inv_loc.0 as u64;
    let last_line: u64 = 4 * (inv_delta as u64) + inv_loc.1 as u64;
    last_column <= u32::MAX as u64 && last_line <= u32::MAX as u64 && (last_column as usize)
        < frame.width() && (last_line as usize) < frame.height()
}

/// Whether every cell of the quad tab is sampled inside the picture.
pub fn quad_fits(frame: &ScreenshotData, height: u32) -> (r: bool)
    requires
        known_height(height),
    ensures
        r == quad_on_screen(frame@, height),
{
    let last_column: usize = if height == 1080 {
        23 * 26 + 21 + 15
    } else {
        23 * 35 + 29 + 15
    };
    last_column < frame.width() && row_line_of(height, CELLS - 1) < frame.height()
}

/// The sample point of slot `k`.
fn slot_point(inv_loc: (u32, u32), inv_delta: u32, k: usize) -> (p: (u32, u32))
    requires
        k < SLOTS,
        11 * inv_delta + inv_loc.0 <= u32::MAX,
        4 * inv_delta + inv_loc.1 <= u32::MAX,
    ensures
        p.0 == slot_column(inv_loc, inv_delta, k as int),
        p.1 == slot_line(inv_loc, inv_delta, k as int),
        p.0 <= 11 * inv_delta + inv_loc.0,
        p.1 <= 4 * inv_delta + inv_loc.1,
{
    let x: u32 = (k / 5) as u32;
    let y: u32 = (k % 5) as u32;
    proof {
        assert(x * inv_delta <= 11 * inv_delta) by (nonlinear_arith)
            requires
                0 <= x <= 11,
                0 <= inv_delta,
        ;
        assert(y * inv_delta <= 4 * inv_delta) by (nonlinear_arith)
            requires
                0 <= y <= 4,
                0 <= inv_delta,
        ;
        assert(0 <= x * inv_delta) by (nonlinear_arith)
            requires
                0 <= x,
                0 <= inv_delta,
        ;
        assert(0 <= y * inv_delta) by (nonlinear_arith)
            requires
                0 <= y,
                0 <= inv_delta,
        ;
    }
    (x * inv_delta + inv_loc.0, y * inv_delta + inv_loc.1)
}

/// The colours of the 60 slots as the picture shows them, slot by slot.
pub fn reset_inv_colors(frame: &ScreenshotData, inv_loc: (u32, u32), inv_delta: u32) -> (colors:
    Vec<u32>)
    requires
        inventory_on_screen(frame@, inv_loc, inv_delta),
    ensures
        colors@.len() == SLOTS,
        forall|k: int|
            0 <= k < SLOTS ==> #[trigger] colors@[k] == slot_color(frame@, inv_loc, inv_delta, k),
{
    let mut colors: Vec<u32> = Vec::new();
    let mut k: usize = 0;
    while k < SLOTS
        invariant
            k <= SLOTS,
            inventory_on_screen(frame@, inv_loc, inv_delta),
            colors@.len() == k,
            forall|j: int|
                0 <= j < k ==> #[trigger] colors@[j] == slot_color(frame@, inv_loc, inv_delta, j),
        decreases SLOTS - k,
    {
        let (mousex, mousey) = slot_point(inv_loc, inv_delta, k);
        let color = frame.get_pixel(mousex as usize, mousey as usize);
        colors.push(color);
        k += 1;
    }
    colors
}

/// Where to click to empty the inventory into the stash: the sample point of each slot,
/// from `start_slot` on, whose colour is not the one remembered for it.
pub fn empty_inv_macro(
    frame: &ScreenshotData,
    inv_colors: &Vec<u32>,
    start_slot: u32,
    inv_loc: (u32, u32),
    inv_delta: u32,
) -> (clicks: Vec<(u32, u32)>)
    requires
        inventory_on_screen(frame@, inv_loc, inv_delta),
        inv_colors@.len() >= SLOTS,
    ensures
        clicks@ == slots_to_empty(
            frame@,
            inv_colors@,
            start_slot,
            inv_loc,
            inv_delta,
            SLOTS as int,
        ),
{
    let mut clicks: Vec<(u32, u32)> = Vec::new();
    let mut k: usize = 0;
    while k < SLOTS
        invariant
            k <= SLOTS,
            inventory_on_screen(frame@, inv_loc, inv_delta),
            inv_colors@.len() >= SLOTS,
            clicks@ == slots_to_empty(frame@, inv_colors@, start_slot, inv_loc, inv_delta, k as int),
        decreases SLOTS - k,
    {
        if (k / 5) as u32 >= start_slot / 5 && (k % 5) as u32 >= start_slot % 5 {
            let (mousex, mousey) = slot_point(inv_loc, inv_delta, k);
            let color = frame.get_pixel(mousex as usize, mousey as usize);
            if color != inv_colors[k] {
                clicks.push((mousex, mousey));
            }
        }
        k += 1;
    }
    clicks
}

/// The screen columns from one cell of a quad tab to the next, when selected cells are
/// looked for.
pub open spec fn sort_pitch(height: u32) -> int {
    if height == 1080 {
        26
    } else {
        35
    }
}

/// Whether every cell of the quad tab is sampled inside the picture.
pub open spec fn quad_on_screen(frame: FrameView, height: u32) -> bool {
    &&& (CELLS - 1) * sort_pitch(height) + left_edge(height) + 15 < frame.width
    &&& row_line(height, CELLS - 1) < frame.height
}

/// The screen column where cell `k` begins; the cells are counted row by row.
pub open spec fn cell_column(height: u32, k: int) -> int {
    (k % (CELLS as int)) * sort_pitch(height) + left_edge(height)
}

/// The screen line of cell `k`.
pub open spec fn cell_line(height: u32, k: int) -> int {
    row_line(height, k / (CELLS as int))
}

/// Whether cell `k` is selected: one of its three sample points, 0, 7 and 15 pixels from
/// its left edge, has the colour of the selection.
pub open spec fn selected(frame: FrameView, height: u32, k: int) -> bool {
    let rx = cell_column(height, k);
    let ry = cell_line(height, k);
    ||| frame.pixel(rx, ry) == SELECT_COLOR
    ||| frame.pixel(rx + 7, ry) == SELECT_COLOR
    ||| frame.pixel(rx + 15, ry) == SELECT_COLOR
}

/// Where to click among the first `k` cells to pull items out of a quad tab: at each
/// selected cell, ten pixels right of its left edge and ten above its line, until `times`
/// cells are clicked.
pub open spec fn cells_to_pull(frame: FrameView, height: u32, times: usize, k: int) -> Seq<
    (usize, usize),
>
    decreases k,
{
    if k <= 0 {
        Seq::empty()
    } else {
        let before = cells_to_pull(frame, height, times, k - 1);
        if before.len() < times && selected(frame, height, k - 1) {
            before.push(
                (
                    (cell_column(height, k - 1) + 10) as usize,
                    (cell_line(height, k - 1) - 10) as usize,
                ),
            )
        } else {
            before
        }
    }
}

/// Where to click to pull the selected items out of a quad tab, `times` of them at most.
pub fn sort_quad(frame: &ScreenshotData, height: u32, times: usize) -> (clicks: Vec<(usize, usize)>)
    requires
        known_height(height),
        quad_on_screen(frame@, height),
    ensures
        clicks@ == cells_to_pull(frame@, height, times, (CELLS * CELLS) as int),
{
    let left = left_edge_of(height);
    let px: usize = if height == 1080 {
        (2573 - 1920 - 15) / 24
    } else {
        830 - 795
    };
    let mut clicks: Vec<(usize, usize)> = Vec::new();
    let mut k: usize = 0;
    while k < CELLS * CELLS
        invariant
            k <= CELLS * CELLS,
            known_height(height),
            quad_on_screen(frame@, height),
            left == left_edge(height),
            px == sort_pitch(height),
            clicks@ == cells_to_pull(frame@, height, times, k as int),
        decreases CELLS * CELLS - k,
    {
        if clicks.len() < times {
            let ry = row_line_of(height, k / CELLS);
            let rx = (k % CELLS) * px + left;
            let col1 = frame.get_pixel(rx, ry);
            let col2 = frame.get_pixel(rx + 7, ry);
            let col3 = frame.get_pixel(rx + 15, ry);
            if col1 == SELECT_COLOR || col2 == SELECT_COLOR || col3 == SELECT_COLOR {
                clicks.push((rx + 10, ry - 10));
            }
        }
        k += 1;
    }
    clicks
}

} // verus!
