//! The grid of a quad stash tab on the screen: 24 by 24 cells.
//!
//! The positions are known for two window heights, 1080 and 1440 pixels.

use vstd::prelude::*;

verus! {

/// The cells in a row, and the rows, of a quad tab.
pub const CELLS: usize = 24;

/// The screen line of each row at a window height of 1080.
pub const ROWS_1080: [usize; 24] = [
    160, 186, 212, 239, 265, 291, 318, 344, 370, 397, 423, 449, 476, 502, 528, 555, 581, 607, 634,
    660, 686, 712, 739, 765,
];

/// The screen line of each row at a window height of 1440.
pub const ROWS_1440: [usize; 24] = [
    260, 295, 330, 365, 400, 436, 471, 506, 541, 576, 611, 646, 681, 716, 751, 787, 822, 857, 892,
    927, 962, 997, 1032, 1067,
];

/// Whether the grid's place is known at this window height.
pub open spec fn known_height(height: u32) -> bool {
    height == 1080 || height == 1440
}

/// The screen column where the grid begins.
pub open spec fn left_edge(height: u32) -> int {
    if height == 1080 {
        21
    } else {
        29
    }
}

/// The screen line of row `row`.
pub open spec fn row_line(height: u32, row: int) -> int {
    if height == 1080 {
        ROWS_1080[row] as int
    } else {
        ROWS_1440[row] as int
    }
}

/// Whether the grid's place is known at this window height.
pub fn is_known_height(height: u32) -> (r: bool)
    ensures
        r == known_height(height),
{
    height == 1080 || height == 1440
}

/// The screen column where the grid begins.
pub fn left_edge_of(height: u32) -> (r: usize)
    requires
        known_height(height),
    ensures
        r == left_edge(height),
{
    if height == 1080 {
        21
    } else {
        29
    }
}

/// The screen line of row `row`; no row lies below the last.
pub fn row_line_of(height: u32, row: usize) -> (r: usize)
    requires
        known_height(height),
        row < CELLS,
    ensures
        r == row_line(height, row as int),
        10 <= r <= row_line(height, CELLS - 1),
{
    if height == 1080 {
        ROWS_1080[row]
    } else {
        ROWS_1440[row]
    }
}

} // verus!
