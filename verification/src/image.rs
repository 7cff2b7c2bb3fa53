//! Backend image representation: a dense, row-major pixel buffer with
//! bounds-checked access.
use vstd::prelude::*;

use crate::pixel::Pixel;

verus! {

/// Largest accepted canvas dimension. Keeps every buffer index and every
/// stamp-target coordinate within machine integers on all targets.
pub const DIM_LIMIT: u32 = 32768;

/// Backend image representation.
pub struct Image {
    /// Width of the image.
    pub width: u32,
    /// Height of the image.
    pub height: u32,
    /// Pixel data in row-major order.
    pub pixels: Vec<Pixel>,
}

impl Image {
    /// The buffer matches the dimensions, the dimensions are within the
    /// machine limit, and every pixel is a well-formed fixed-point value.
    pub open spec fn wf(self) -> bool {
        &&& self.width <= DIM_LIMIT
        &&& self.height <= DIM_LIMIT
        &&& self.pixels@.len() == self.width * self.height
        &&& forall|i: int|
            0 <= i < self.pixels@.len() ==> (#[trigger] self.pixels@[i]).wf()
    }

    /// The pixel stored at (x, y).
    pub open spec fn at(self, x: int, y: int) -> Pixel {
        self.pixels@[y * self.width + x]
    }

    /// Whether (x, y) lies on the canvas.
    pub open spec fn in_bounds(self, x: int, y: int) -> bool {
        0 <= x < self.width && 0 <= y < self.height
    }

    /// The image as a finite map from coordinate to pixel value.
    pub open spec fn as_map(self) -> Map<(int, int), Pixel> {
        Map::new(|c: (int, int)| self.in_bounds(c.0, c.1), |c: (int, int)| self.at(c.0, c.1))
    }

    /// Create an image of the given dimensions, filled with one pixel value.
    pub fn new(width: u32, height: u32, pixel: Pixel) -> (out: Image)
        requires
            width <= DIM_LIMIT,
            height <= DIM_LIMIT,
            pixel.wf(),
        ensures
            out.wf(),
            out.width == width,
            out.height == height,
            forall|x: int, y: int| out.in_bounds(x, y) ==> out.at(x, y) == pixel,
    {
        proof {
            assert((width as int) * (height as int) <= (DIM_LIMIT as int) * (DIM_LIMIT as int))
                by (nonlinear_arith)
                requires
                    0 <= width as int <= DIM_LIMIT as int,
                    0 <= height as int <= DIM_LIMIT as int,
            ;
        }
        let n: usize = (width as usize) * (height as usize);
        let mut pixels: Vec<Pixel> = Vec::new();
        let mut i: usize = 0;
        while i < n
            invariant
                i <= n,
                n == width * height,
                pixels@.len() == i,
                forall|k: int| 0 <= k < i ==> pixels@[k] == pixel,
            decreases n - i,
        {
            pixels.push(pixel);
            i += 1;
        }
        let out = Image { width, height, pixels };
        proof {
            assert forall|x: int, y: int| out.in_bounds(x, y) implies out.at(x, y) == pixel by {
                lemma_row_major_index(out.width as int, out.height as int, x, y);
            }
        }
        out
    }

    /// Get the pixel value at (x, y).
    pub fn get(&self, x: u32, y: u32) -> (out: &Pixel)
        requires
            self.wf(),
            self.in_bounds(x as int, y as int),
        ensures
            *out == self.at(x as int, y as int),
            out.wf(),
    {
        proof {
            lemma_row_major_index(self.width as int, self.height as int, x as int, y as int);
        }
        let idx: usize = (y as usize) * (self.width as usize) + (x as usize);
        &self.pixels[idx]
    }

    /// An element-for-element copy of this image.
    pub fn duplicate(&self) -> (out: Image)
        ensures
            out.width == self.width,
            out.height == self.height,
            out.pixels@ == self.pixels@,
            self.wf() ==> out.wf(),
    {
        let n = self.pixels.len();
        let mut pixels: Vec<Pixel> = Vec::new();
        let mut i: usize = 0;
        while i < n
            invariant
                i <= n,
                n == self.pixels@.len(),
                pixels@ =~= self.pixels@.take(i as int),
            decreases n - i,
        {
            pixels.push(self.pixels[i]);
            i += 1;
        }
        proof {
            assert(pixels@ =~= self.pixels@);
        }
        Image { width: self.width, height: self.height, pixels }
    }

    /// Set the pixel value at (x, y).
    pub fn set(&mut self, x: u32, y: u32, pixel: Pixel)
        requires
            old(self).wf(),
            old(self).in_bounds(x as int, y as int),
            pixel.wf(),
        ensures
            final(self).wf(),
            final(self).width == old(self).width,
            final(self).height == old(self).height,
            final(self).at(x as int, y as int) == pixel,
            forall|i: int, j: int|
                old(self).in_bounds(i, j) && (i != x || j != y) ==> final(self).at(i, j) == old(
                    self,
                ).at(i, j),
    {
        proof {
            lemma_row_major_index(self.width as int, self.height as int, x as int, y as int);
        }
        let idx: usize = (y as usize) * (self.width as usize) + (x as usize);
        self.pixels[idx] = pixel;
        proof {
            assert forall|i: int, j: int|
                old(self).in_bounds(i, j) && (i != x || j != y) implies self.at(i, j) == old(
                self,
            ).at(i, j) by {
                lemma_row_major_index(self.width as int, self.height as int, i, j);
                lemma_row_major_distinct(self.width as int, i, j, x as int, y as int);
            }
            assert forall|i: int|
                0 <= i < self.pixels@.len() implies (#[trigger] self.pixels@[i]).wf() by {
            }
        }
    }
}

/// Every pixel of a well-formed image is a well-formed fixed-point value.
pub proof fn lemma_image_at_wf(img: Image, x: int, y: int)
    requires
        img.wf(),
        img.in_bounds(x, y),
    ensures
        img.at(x, y).wf(),
{
    lemma_row_major_index(img.width as int, img.height as int, x, y);
}

/// A row-major index of an in-range coordinate is within the buffer and
/// within the machine limit.
proof fn lemma_row_major_index(width: int, height: int, x: int, y: int)
    requires
        0 <= x < width,
        0 <= y < height,
        width <= DIM_LIMIT,
        height <= DIM_LIMIT,
    ensures
        0 <= y * width + x < width * height,
        width * height <= DIM_LIMIT * DIM_LIMIT,
{
    assert(y * width + x < width * height) by (nonlinear_arith)
        requires
            0 <= x < width,
            0 <= y < height,
    ;
    assert(0 <= y * width) by (nonlinear_arith)
        requires
            0 <= y,
            0 <= width,
    ;
    assert(width * height <= (DIM_LIMIT as int) * (DIM_LIMIT as int)) by (nonlinear_arith)
        requires
            0 <= width <= DIM_LIMIT as int,
            0 <= height <= DIM_LIMIT as int,
    ;
}

/// Distinct in-range coordinates have distinct row-major indices.
proof fn lemma_row_major_distinct(width: int, x1: int, y1: int, x2: int, y2: int)
    requires
        0 <= x1 < width,
        0 <= x2 < width,
        0 <= y1,
        0 <= y2,
        x1 != x2 || y1 != y2,
    ensures
        y1 * width + x1 != y2 * width + x2,
{
    assert(y1 * width + x1 != y2 * width + x2) by (nonlinear_arith)
        requires
            0 <= x1 < width,
            0 <= x2 < width,
            0 <= y1,
            0 <= y2,
            x1 != x2 || y1 != y2,
    ;
}

} // verus!
