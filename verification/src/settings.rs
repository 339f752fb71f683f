//! The parts of the settings that the macros compute with.

use vstd::prelude::*;

verus! {

/// A rectangle, by its top left corner, its width and its height.
#[derive(Clone, Copy, Debug, PartialEq, Eq, Hash, Structural)]
pub struct Rect {
    /// The x coordinate of the top left corner.
    pub x: u32,
    /// The y coordinate of the top left corner.
    pub y: u32,
    /// The rectangle's width.
    pub width: u32,
    /// The rectangle's height.
    pub height: u32,
}

/// How a picture of the screen is taken.
#[derive(Clone, Copy, Debug, PartialEq, Eq, Structural)]
pub enum ScreenshotMethod {
    /// By the program `grim`, under Wayland.
    Grim,
    /// By capturing the display, under X and Windows.
    Scrot,
    /// No way is set; no picture can be taken.
    Unset,
}

/// The distance between two inventory slots where it is set or known for the window
/// height: what is set comes first; else 53 at 1080, 70 at 1440 and 54 at 1000.
pub open spec fn known_delta(inv_delta_override: Option<u32>, height: u32) -> Option<u32> {
    match inv_delta_override {
        Some(d) => Some(d),
        None => if height == 1080 {
            Some(53u32)
        } else if height == 1440 {
            Some(70u32)
        } else if height == 1000 {
            Some(54u32)
        } else {
            None
        },
    }
}

/// The distance between two inventory slots, in pixels, where it is set or known for the
/// window height.
pub fn inv_delta(inv_delta_override: Option<u32>, height: u32) -> (r: Option<u32>)
    ensures
        r == known_delta(inv_delta_override, height),
{
    if let Some(d) = inv_delta_override {
        return Some(d);
    }
    if height == 1080 {
        Some(53)
    } else if height == 1440 {
        Some(70)
    } else if height == 1000 {
        Some(54)
    } else {
        None
    }
}

} // verus!
