//! Brushes: immutable weighted coverage kernels derived from a raster.
//!
//! A brush is built once from an already-decoded raster image. Each raster
//! pixel contributes one kernel point whose weight is the inverted average
//! luminance of that pixel: brighter source pixels contribute less
//! coverage. The kernel is centred on the raster's midpoint by integer
//! division, so even-dimension rasters centre toward the lower-right.
use vstd::prelude::*;

use crate::image::DIM_LIMIT;
use crate::image::Image;
use crate::pixel::CHANNEL_ONE;

verus! {

use vstd::arithmetic::div_mod::lemma_multiply_divide_lt;

/// One point of a brush kernel: offsets from the brush centre and the
/// coverage weight at that offset.
#[derive(Clone, Copy, Debug, PartialEq, Eq, Structural)]
pub struct StampPoint {
    pub dx: i32,
    pub dy: i32,
    pub weight: u32,
}

/// The kernel point derived from raster position `i` (row-major):
/// offsets relative to the raster midpoint, and weight equal to full
/// intensity minus the average of the three colour channels.
pub open spec fn kernel_point(data: Image, i: int) -> StampPoint {
    let w = data.width as int;
    let x = i % w;
    let y = i / w;
    let px = data.at(x, y);
    StampPoint {
        dx: (x - (data.width / 2) as int) as i32,
        dy: (y - (data.height / 2) as int) as i32,
        weight: ((CHANNEL_ONE as int) - (px.r + px.g + px.b) / 3) as u32,
    }
}

/// A named, immutable brush kernel.
pub struct Brush {
    /// Name of the brush.
    pub name: String,
    /// The raster the kernel was derived from.
    pub data: Image,
    /// The derived kernel, one point per raster pixel, row-major.
    pub kernel: Vec<StampPoint>,
}

impl Brush {
    /// The kernel is exactly the one derived from the raster, with every
    /// weight within the fixed-point range and every offset within the
    /// machine dimension limit.
    pub open spec fn wf(self) -> bool {
        &&& self.data.wf()
        &&& self.kernel@.len() == self.data.width * self.data.height
        &&& forall|i: int|
            0 <= i < self.kernel@.len() ==> #[trigger] self.kernel@[i] == kernel_point(self.data, i)
        &&& forall|i: int|
            0 <= i < self.kernel@.len() ==> {
                let p = #[trigger] self.kernel@[i];
                p.weight <= CHANNEL_ONE && -(DIM_LIMIT as int) <= p.dx <= DIM_LIMIT && -(
                DIM_LIMIT as int) <= p.dy <= DIM_LIMIT
            }
    }

    /// Build a brush from a decoded raster.
    pub fn new(name: String, data: Image) -> (out: Brush)
        requires
            data.wf(),
        ensures
            out.wf(),
            out.name == name,
            out.data == data,
    {
        let w = data.width;
        let h = data.height;
        proof {
            assert((w as int) * (h as int) <= (DIM_LIMIT as int) * (DIM_LIMIT as int))
                by (nonlinear_arith)
                requires
                    0 <= w as int <= DIM_LIMIT as int,
                    0 <= h as int <= DIM_LIMIT as int,
            ;
        }
        let n: usize = (w as usize) * (h as usize);
        let mut kernel: Vec<StampPoint> = Vec::new();
        let mut i: usize = 0;
        while i < n
            invariant
                i <= n,
                n == w * h,
                w == data.width,
                h == data.height,
                data.wf(),
                kernel@.len() == i,
                forall|j: int| 0 <= j < i ==> #[trigger] kernel@[j] == kernel_point(data, j),
            decreases n - i,
        {
            proof {
                assert(w > 0) by (nonlinear_arith)
                    requires
                        (i as int) < (w as int) * (h as int),
                        0 <= i,
                        0 <= w,
                ;
                lemma_multiply_divide_lt(i as int, w as int, h as int);
            }
            let x: u32 = (i % (w as usize)) as u32;
            let y: u32 = (i / (w as usize)) as u32;
            let px = *data.get(x, y);
            let avg: u32 = (px.r + px.g + px.b) / 3;
            let point = StampPoint {
                dx: (x as i32) - ((w / 2) as i32),
                dy: (y as i32) - ((h / 2) as i32),
                weight: CHANNEL_ONE - avg,
            };
            kernel.push(point);
            i += 1;
        }
        let out = Brush { name, data, kernel };
        proof {
            assert forall|j: int|
                0 <= j < out.kernel@.len() implies {
                let p = #[trigger] out.kernel@[j];
                p.weight <= CHANNEL_ONE && -(DIM_LIMIT as int) <= p.dx <= DIM_LIMIT && -(
                DIM_LIMIT as int) <= p.dy <= DIM_LIMIT
            } by {
                let wi = out.data.width as int;
                let hi = out.data.height as int;
                assert(wi > 0) by (nonlinear_arith)
                    requires
                        0 <= j < wi * hi,
                        0 <= wi,
                ;
                lemma_multiply_divide_lt(j, wi, hi);
                let x = j % wi;
                let y = j / wi;
                crate::image::lemma_image_at_wf(out.data, x, y);
            }
        }
        out
    }

    /// A value copy of this brush: same name, raster and kernel.
    pub fn duplicate(&self) -> (out: Brush)
        ensures
            out.name@ == self.name@,
            out.data.width == self.data.width,
            out.data.height == self.data.height,
            out.data.pixels@ == self.data.pixels@,
            out.kernel@ == self.kernel@,
            self.wf() ==> out.wf(),
    {
        let n = self.kernel.len();
        let mut kernel: Vec<StampPoint> = Vec::new();
        let mut i: usize = 0;
        while i < n
            invariant
                i <= n,
                n == self.kernel@.len(),
                kernel@ =~= self.kernel@.take(i as int),
            decreases n - i,
        {
            kernel.push(self.kernel[i]);
            i += 1;
        }
        proof {
            assert(kernel@ =~= self.kernel@);
        }
        let out = Brush { name: self.name.clone(), data: self.data.duplicate(), kernel };
        proof {
            if self.wf() {
                assert forall|j: int|
                    0 <= j < out.kernel@.len() implies #[trigger] out.kernel@[j] == kernel_point(
                    out.data,
                    j,
                ) by {
                    assert(self.kernel@[j] == kernel_point(self.data, j));
                    assert(kernel_point(out.data, j) == kernel_point(self.data, j));
                }
            }
        }
        out
    }

    /// The kernel as (dx, dy, weight) points: offsets from the centre of
    /// the brush and the coverage strength at each offset.
    pub fn iter_values(&self) -> (out: &Vec<StampPoint>)
        ensures
            out == &self.kernel,
    {
        &self.kernel
    }
}

} // verus!
