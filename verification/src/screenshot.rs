//! A picture of the screen, and the colour of its pixels.

use vstd::prelude::*;

verus! {

/// A picture of the screen: four bytes for each pixel, red, green, blue and alpha, row
/// after row from the top.
pub struct ScreenshotData {
    height: usize,
    width: usize,
    pixels: Vec<u8>,
}

/// What a picture holds, as plain values.
pub struct FrameView {
    pub width: nat,
    pub height: nat,
    pub pixels: Seq<u8>,
}

/// The colour that four bytes from `pos` on make: the first byte highest.
pub open spec fn color_at(pixels: Seq<u8>, pos: int) -> u32 {
    (pixels[pos] * 0x100_0000 + pixels[pos + 1] * 0x1_0000 + pixels[pos + 2] * 0x100 + pixels[pos
        + 3]) as u32
}

impl FrameView {
    /// The colour of the pixel in column `x` of row `y`.
    pub open spec fn pixel(self, x: int, y: int) -> u32 {
        color_at(self.pixels, (y * self.width + x) * 4)
    }
}

impl View for ScreenshotData {
    type V = FrameView;

    closed spec fn view(&self) -> FrameView {
        FrameView { width: self.width as nat, height: self.height as nat, pixels: self.pixels@ }
    }
}

impl ScreenshotData {
    #[verifier::type_invariant]
    spec fn enough_bytes(self) -> bool {
        self.width * self.height * 4 <= self.pixels@.len()
    }

    /// A picture of `width` by `height` pixels; nothing where `pixels` holds fewer than
    /// four bytes for each.
    pub fn new(width: usize, height: usize, pixels: Vec<u8>) -> (r: Option<ScreenshotData>)
        ensures
            match r {
                Some(frame) => frame@ == (FrameView {
                    width: width as nat,
                    height: height as nat,
                    pixels: pixels@,
                }),
                None => true,
            },
            r is Some <==> width * height * 4 <= pixels@.len(),
    {
        proof {
            assert(width * height <= width * height * 4) by (nonlinear_arith)
                requires
                    0 <= width * height,
            ;
            assert(0 <= width * height) by (nonlinear_arith)
                requires
                    0 <= width,
                    0 <= height,
            ;
        }
        let held = pixels.len();
        let area = match width.checked_mul(height) {
            Some(a) => a,
            None => {
                return None;
            },
        };
        match area.checked_mul(4) {
            Some(bytes) => {
                if bytes <= held {
                    Some(ScreenshotData { height, width, pixels })
                } else {
                    None
                }
            },
            None => None,
        }
    }

    /// How many pixels a row holds.
    pub fn width(&self) -> (w: usize)
        ensures
            w == self@.width,
    {
        self.width
    }

    /// How many rows the picture holds.
    pub fn height(&self) -> (h: usize)
        ensures
            h == self@.height,
    {
        self.height
    }

    /// The colour of the pixel in column `x` of row `y`: red in the highest byte, then
    /// green, blue and alpha.
    pub fn get_pixel(&self, x: usize, y: usize) -> (color: u32)
        requires
            x < self@.width,
            y < self@.height,
        ensures
            color == self@.pixel(x as int, y as int),
    {
        proof {
            use_type_invariant(self);
            let w = self.width as int;
            let h = self.height as int;
            assert(y * w + w <= w * h) by (nonlinear_arith)
                requires
                    0 <= y,
                    y + 1 <= h,
                    0 <= w,
            ;
            assert(0 <= y * w) by (nonlinear_arith)
                requires
                    0 <= y,
                    0 <= w,
            ;
        }
        let held = self.pixels.len();
        let pos: usize = (y * self.width + x) * 4;
        let r = self.pixels[pos] as u32;
        let g = self.pixels[pos + 1] as u32;
        let b = self.pixels[pos + 2] as u32;
        let a = self.pixels[pos + 3] as u32;
        r * 0x100_0000 + g * 0x1_0000 + b * 0x100 + a
    }
}

} // verus!
