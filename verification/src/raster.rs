//! The raster data model: a 2-D grid of RGB triples with explicit dimensions.

use vstd::prelude::*;

verus! {

/// An RGB image, row-major, one `(r, g, b)` triple per pixel.
pub struct Raster {
    pub width: u32,
    pub height: u32,
    pub pixels: Vec<(u8, u8, u8)>,
}

impl Raster {
    /// A raster is well formed when it has at least one pixel in each
    /// dimension and exactly `width * height` samples.
    pub open spec fn wf(&self) -> bool {
        &&& self.width >= 1
        &&& self.height >= 1
        &&& self.pixels@.len() == (self.width as int) * (self.height as int)
    }

    /// The sample at column `x`, row `y`.
    pub open spec fn px(&self, x: int, y: int) -> (u8, u8, u8) {
        self.pixels@[y * (self.width as int) + x]
    }

    /// Pixel-for-pixel equality of two rasters.
    pub open spec fn same_image(&self, other: &Raster) -> bool {
        &&& self.width == other.width
        &&& self.height == other.height
        &&& self.pixels@ == other.pixels@
    }

    /// Reads the sample at column `x`, row `y`.
    pub fn get(&self, x: u32, y: u32) -> (p: (u8, u8, u8))
        requires
            self.wf(),
            x < self.width,
            y < self.height,
        ensures
            p == self.px(x as int, y as int),
    {
        let n = self.pixels.len();
        proof {
            lemma_grid_index_in_range(
                x as int,
                y as int,
                self.width as int,
                self.height as int,
            );
        }
        self.pixels[(y as usize) * (self.width as usize) + (x as usize)]
    }
}

impl Raster {
    /// An owned copy with the same dimensions and pixels.
    pub fn duplicate(&self) -> (r: Raster)
        ensures
            r.same_image(self),
            self.wf() ==> r.wf(),
    {
        let mut pixels: Vec<(u8, u8, u8)> = Vec::new();
        let mut i: usize = 0;
        while i < self.pixels.len()
            invariant
                i <= self.pixels@.len(),
                pixels@ == self.pixels@.take(i as int),
            decreases self.pixels@.len() - i,
        {
            pixels.push(self.pixels[i]);
            i = i + 1;
            assert(pixels@ =~= self.pixels@.take(i as int));
        }
        proof {
            assert(self.pixels@.take(self.pixels@.len() as int) =~= self.pixels@);
        }
        Raster { width: self.width, height: self.height, pixels }
    }
}

/// Whether `r` is the 1-by-1 all-black placeholder.
pub open spec fn is_blank_frame(r: &Raster) -> bool {
    r.width == 1 && r.height == 1 && r.pixels@ == seq![(0u8, 0u8, 0u8)]
}

/// The 1-by-1 all-black placeholder raster shown before any frame decodes.
pub fn blank_frame() -> (r: Raster)
    ensures
        r.wf(),
        is_blank_frame(&r),
{
    let mut pixels: Vec<(u8, u8, u8)> = Vec::new();
    pixels.push((0, 0, 0));
    let r = Raster { width: 1, height: 1, pixels };
    proof {
        assert(r.pixels@ =~= seq![(0u8, 0u8, 0u8)]);
    }
    r
}

/// A row-major grid index stays below the pixel count.
pub proof fn lemma_grid_index_in_range(x: int, y: int, w: int, h: int)
    requires
        0 <= x < w,
        0 <= y < h,
    ensures
        0 <= y * w + x < h * w,
{
    assert(y * w + x < h * w) by (nonlinear_arith)
        requires
            0 <= x < w,
            0 <= y < h,
    {
    }
    assert(0 <= y * w) by (nonlinear_arith)
        requires
            0 <= y,
            0 <= w,
    {
    }
}

} // verus!
