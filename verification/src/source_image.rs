//! An immutable in-memory pixel grid: the decoded image that a conversion
//! reads. Decoding an image container format into this grid is a
//! collaborator's job; the conversion itself only ever looks pixels up by
//! coordinate.

use vstd::prelude::*;

use crate::pixel::Pixel;

verus! {

/// A decoded raster image: `width * height` pixels stored row by row,
/// top row first.
pub struct SourceImage {
    pub width: u32,
    pub height: u32,
    pub pixels: Vec<Pixel>,
}

impl SourceImage {
    /// The pixel store holds exactly one pixel per coordinate.
    pub open spec fn wf(self) -> bool {
        self.pixels@.len() == self.width as int * self.height as int
    }

    /// The pixel at column `x`, row `y` (row-major storage).
    pub open spec fn spec_pixel(self, x: int, y: int) -> Pixel
        recommends
            self.wf(),
            0 <= x < self.width,
            0 <= y < self.height,
    {
        self.pixels@[y * self.width as int + x]
    }

    /// Builds an image from its dimensions and a row-major pixel store.
    /// Fails exactly when the store's length does not match the dimensions.
    pub fn new(width: u32, height: u32, pixels: Vec<Pixel>) -> (r: Option<SourceImage>)
        ensures
            match r {
                Some(img) => {
                    &&& img.width == width
                    &&& img.height == height
                    &&& img.pixels@ == pixels@
                    &&& img.wf()
                },
                None => pixels@.len() != width as int * height as int,
            },
    {
        proof {
            assert((width as int) * (height as int) <= 0xffffffff * 0xffffffff)
                by (nonlinear_arith)
                requires
                    width <= 0xffffffffu32,
                    height <= 0xffffffffu32,
            ;
        }
        if pixels.len() as u64 == (width as u64) * (height as u64) {
            Some(SourceImage { width, height, pixels })
        } else {
            None
        }
    }

    /// Looks up the four channel values at column `x`, row `y`.
    pub fn pixel_at(&self, x: u32, y: u32) -> (p: Pixel)
        requires
            self.wf(),
            x < self.width,
            y < self.height,
        ensures
            p == self.spec_pixel(x as int, y as int),
    {
        proof {
            assert((y as int) * (self.width as int) + (x as int) < (self.width as int) * (
            self.height as int)) by (nonlinear_arith)
                requires
                    x < self.width,
                    y < self.height,
            ;
        }
        let n: usize = self.pixels.len();
        let idx: usize = (y as usize) * (self.width as usize) + (x as usize);
        assert(idx < n);
        self.pixels[idx]
    }
}

} // verus!
