//! Coordinate conversion between a front-end screen buffer and the
//! backend image data, and the projection of the image onto a screen.
//!
//! Display positions are counted in thousandths of a display unit
//! ("milli" units) and the conversion factor in tenths, so that the whole
//! pan/zoom transform is exact integer arithmetic.
use vstd::prelude::*;

use crate::image::Image;
use crate::pixel::DisplayPixel;
use crate::pixel::Pixel;
use crate::pixel::display_of;

verus! {

use vstd::arithmetic::div_mod::lemma_div_is_ordered;

/// Largest display position, in milli units, that the stroke path accepts.
pub const COORD_LIMIT: i64 = 1_000_000_000_000;

/// Largest magnitude of the conversion factor, in tenths. This is a
/// machine-range guard, not a design bound: a factor this size has no
/// physical meaning.
pub const FACTOR_LIMIT: i64 = 1_000_000;

/// Bound on canvas-space sub-pixel coordinates produced from display
/// positions within `COORD_LIMIT` under a factor within `FACTOR_LIMIT`.
pub const SUB_LIMIT: i64 = 700_000_000_000_000_000;

/// Checkerboard pattern square dimension.
pub const CHECKERBOARD_DIM: u32 = 20;

/// Division truncating toward zero (the semantics of hardware division),
/// for a positive divisor.
pub open spec fn tdiv(a: int, b: int) -> int {
    if a >= 0 {
        a / b
    } else {
        -((-a) / b)
    }
}

/// Truncating division on machine integers.
pub(crate) fn tdiv_i128(a: i128, b: i128) -> (r: i128)
    requires
        b > 0,
        a > i128::MIN,
    ensures
        r == tdiv(a as int, b as int),
        a >= 0 ==> 0 <= r <= a,
        a < 0 ==> a <= r <= 0,
{
    if a >= 0 {
        let q: u128 = (a as u128) / (b as u128);
        proof {
            lemma_div_is_ordered(a as int, i128::MAX as int, b as int);
            vstd::arithmetic::div_mod::lemma_div_nonincreasing(a as int, b as int);
        }
        q as i128
    } else {
        let m: u128 = (-a) as u128;
        let q: u128 = m / (b as u128);
        proof {
            vstd::arithmetic::div_mod::lemma_div_nonincreasing(m as int, b as int);
        }
        -(q as i128)
    }
}

/// A trait for GUI/front end screen buffers.
///
/// This abstracts the write-only display surfaces that different GUI
/// front ends hand to the core for re-rendering.
pub trait ScreenBuffer {
    fn width(&self) -> u32;

    fn height(&self) -> u32;

    fn set(&mut self, x: u32, y: u32, pixel: DisplayPixel);
}

/// The checkerboard colour for a screen position: alternating dark and
/// light teal squares of `CHECKERBOARD_DIM` pixels.
pub open spec fn checkerboard_spec(x: int, y: int) -> DisplayPixel {
    if (x / (CHECKERBOARD_DIM as int) + y / (CHECKERBOARD_DIM as int)) % 2 == 0 {
        DisplayPixel { r: 0, g: 128, b: 128, a: 255 }
    } else {
        DisplayPixel { r: 0, g: 255, b: 255, a: 255 }
    }
}

/// Produce a procedural checkerboard, used for empty parts of the screen.
pub fn checkerboard(screen_x: u32, screen_y: u32) -> (out: DisplayPixel)
    ensures
        out == checkerboard_spec(screen_x as int, screen_y as int),
{
    let x = screen_x / CHECKERBOARD_DIM;
    let y = screen_y / CHECKERBOARD_DIM;
    if ((x + y) % 2) == 0 {
        DisplayPixel { r: 0, g: 128, b: 128, a: 255 }
    } else {
        DisplayPixel { r: 0, g: 255, b: 255, a: 255 }
    }
}

/// ImageView handles coordinate conversion between a front-end screen
/// buffer and backend image data, under a pan offset and a zoom factor.
#[derive(Clone, Copy, Debug)]
pub struct ImageView {
    /// X-position of the upper left corner of the image in the view,
    /// in milli display units.
    pub disp_corner_x: i64,
    /// Y-position of the upper left corner of the image in the view,
    /// in milli display units.
    pub disp_corner_y: i64,
    /// Conversion factor from display to image coordinates, in tenths.
    pub conversion_factor: i64,
}

impl ImageView {
    /// The corner offset and the factor are within machine-range guards.
    pub open spec fn wf(self) -> bool {
        &&& -COORD_LIMIT <= self.disp_corner_x <= COORD_LIMIT
        &&& -COORD_LIMIT <= self.disp_corner_y <= COORD_LIMIT
        &&& -FACTOR_LIMIT <= self.conversion_factor <= FACTOR_LIMIT
    }

    /// The canvas-space sub-pixel position of a display position (in
    /// milli units on both sides): `(position - corner) * factor`,
    /// truncated toward zero at the tenths scale.
    pub open spec fn to_canvas_sub(self, sx: int, sy: int) -> (int, int) {
        (
            tdiv((sx - self.disp_corner_x) * self.conversion_factor, 10),
            tdiv((sy - self.disp_corner_y) * self.conversion_factor, 10),
        )
    }

    /// The bounds-checked integer canvas coordinate of a whole-pixel
    /// display position: positions before the corner offset are always
    /// rejected, before anything is scaled; a scaled position outside the
    /// canvas is rejected afterwards.
    pub open spec fn map_checked(self, image: Image, sx: int, sy: int) -> Option<(int, int)> {
        if sx * 1000 < self.disp_corner_x || sy * 1000 < self.disp_corner_y {
            None
        } else {
            let sub = self.to_canvas_sub(sx * 1000, sy * 1000);
            let u = tdiv(sub.0, 1000);
            let v = tdiv(sub.1, 1000);
            if 0 <= u < image.width && 0 <= v < image.height {
                Some((u, v))
            } else {
                None
            }
        }
    }

    /// A view with no pan offset and the default conversion factor of
    /// one half.
    pub fn new() -> (out: ImageView)
        ensures
            out.disp_corner_x == 0,
            out.disp_corner_y == 0,
            out.conversion_factor == 5,
            out.wf(),
    {
        ImageView { disp_corner_x: 0, disp_corner_y: 0, conversion_factor: 5 }
    }

    /// A view with an explicit corner offset (milli display units) and
    /// conversion factor (tenths).
    pub fn from_parts(corner_x: i64, corner_y: i64, factor: i64) -> (out: ImageView)
        requires
            -COORD_LIMIT <= corner_x <= COORD_LIMIT,
            -COORD_LIMIT <= corner_y <= COORD_LIMIT,
            -FACTOR_LIMIT <= factor <= FACTOR_LIMIT,
        ensures
            out.disp_corner_x == corner_x,
            out.disp_corner_y == corner_y,
            out.conversion_factor == factor,
            out.wf(),
    {
        ImageView { disp_corner_x: corner_x, disp_corner_y: corner_y, conversion_factor: factor }
    }

    /// Zoom into the image by one fixed step.
    ///
    /// No meaningful floor is enforced: repeated zooming can drive the
    /// factor to zero or below, degenerating the mapping; only the
    /// machine-range guard stops the decrement.
    pub fn zoom_in(&mut self)
        requires
            old(self).wf(),
        ensures
            final(self).wf(),
            final(self).disp_corner_x == old(self).disp_corner_x,
            final(self).disp_corner_y == old(self).disp_corner_y,
            final(self).conversion_factor == if old(self).conversion_factor - 1 >= -FACTOR_LIMIT {
                old(self).conversion_factor - 1
            } else {
                old(self).conversion_factor as int
            },
    {
        if self.conversion_factor - 1 >= -FACTOR_LIMIT {
            self.conversion_factor = self.conversion_factor - 1;
        }
    }

    /// Zoom out of the image by one fixed step, under the same
    /// machine-range guard as `zoom_in`.
    pub fn zoom_out(&mut self)
        requires
            old(self).wf(),
        ensures
            final(self).wf(),
            final(self).disp_corner_x == old(self).disp_corner_x,
            final(self).disp_corner_y == old(self).disp_corner_y,
            final(self).conversion_factor == if old(self).conversion_factor + 1 <= FACTOR_LIMIT {
                old(self).conversion_factor + 1
            } else {
                old(self).conversion_factor as int
            },
    {
        if self.conversion_factor + 1 <= FACTOR_LIMIT {
            self.conversion_factor = self.conversion_factor + 1;
        }
    }

    /// Get the image coordinates: the unchecked, sub-pixel version, used
    /// during mid-stroke interpolation where a point may legitimately lie
    /// outside the canvas and is skipped by the caller, not rejected here.
    ///
    /// Positions are in milli display units; the result is in milli
    /// canvas units.
    pub fn get_image_coords_f(&self, _image: &Image, screen_x: i64, screen_y: i64) -> (out: (
        i64,
        i64,
    ))
        requires
            self.wf(),
            -2 * COORD_LIMIT <= screen_x <= 2 * COORD_LIMIT,
            -2 * COORD_LIMIT <= screen_y <= 2 * COORD_LIMIT,
        ensures
            (out.0 as int, out.1 as int) == self.to_canvas_sub(screen_x as int, screen_y as int),
            -SUB_LIMIT <= out.0 <= SUB_LIMIT,
            -SUB_LIMIT <= out.1 <= SUB_LIMIT,
    {
        let fx = scaled_axis_wide(screen_x, self.disp_corner_x, self.conversion_factor);
        let fy = scaled_axis_wide(screen_y, self.disp_corner_y, self.conversion_factor);
        (fx, fy)
    }

    /// Get the image coordinates of a whole-pixel display position.
    /// Returns None when the position is out of bounds: before the corner
    /// offset (checked first, whatever the canvas size), or off the
    /// canvas after scaling.
    pub fn get_image_coords_u_checked(&self, image: &Image, screen_x: u32, screen_y: u32) -> (out:
        Option<(u32, u32)>)
        requires
            self.wf(),
            image.wf(),
        ensures
            match out {
                Some(p) => self.map_checked(*image, screen_x as int, screen_y as int) == Some(
                    ((p.0 as int, p.1 as int)),
                ) && image.in_bounds(p.0 as int, p.1 as int),
                None => self.map_checked(*image, screen_x as int, screen_y as int) is None,
            },
            (screen_x * 1000 < self.disp_corner_x || screen_y * 1000 < self.disp_corner_y) ==> out
                is None,
    {
        let sxm: i64 = (screen_x as i64) * 1000;
        let sym: i64 = (screen_y as i64) * 1000;
        if sxm < self.disp_corner_x || sym < self.disp_corner_y {
            return None;
        }
        let fx = scaled_axis_wide(sxm, self.disp_corner_x, self.conversion_factor);
        let fy = scaled_axis_wide(sym, self.disp_corner_y, self.conversion_factor);
        let u: i64 = tdiv_i128(fx as i128, 1000) as i64;
        let v: i64 = tdiv_i128(fy as i128, 1000) as i64;
        if 0 <= u && 0 <= v && u < image.width as i64 && v < image.height as i64 {
            Some((u as u32, v as u32))
        } else {
            None
        }
    }

    /// Get the display pixel for a screen position: the image pixel it
    /// maps to, or the checkerboard where it maps off the canvas.
    pub fn get_display_pixel(&self, image: &Image, screen_x: u32, screen_y: u32) -> (out:
        DisplayPixel)
        requires
            self.wf(),
            image.wf(),
        ensures
            match self.map_checked(*image, screen_x as int, screen_y as int) {
                Some(p) => out == display_of(image.at(p.0, p.1)),
                None => out == checkerboard_spec(screen_x as int, screen_y as int),
            },
    {
        if let Some((img_x, img_y)) = self.get_image_coords_u_checked(image, screen_x, screen_y) {
            proof {
                crate::image::lemma_image_at_wf(*image, img_x as int, img_y as int);
            }
            image.get(img_x, img_y).display_pixel()
        } else {
            checkerboard(screen_x, screen_y)
        }
    }

    /// Re-render the whole screen from the image: every position takes
    /// its mapped image pixel or the checkerboard fill.
    pub fn update_screen<S: ScreenBuffer>(&self, image: &Image, screen: &mut S)
        requires
            self.wf(),
            image.wf(),
    {
        let width = screen.width();
        let height = screen.height();
        let mut x: u32 = 0;
        while x < width
            invariant
                self.wf(),
                image.wf(),
            decreases width - x,
        {
            let mut y: u32 = 0;
            while y < height
                invariant
                    self.wf(),
                    image.wf(),
                decreases height - y,
            {
                let pixel = self.get_display_pixel(image, x, y);
                screen.set(x, y, pixel);
                y += 1;
            }
            x += 1;
        }
    }
}

/// One axis of the pan/zoom transform, admitting the widest positions a
/// 32-bit screen coordinate can produce.
fn scaled_axis_wide(pos: i64, corner: i64, factor: i64) -> (out: i64)
    requires
        -6_000_000_000_000i64 <= pos <= 6_000_000_000_000i64,
        -COORD_LIMIT <= corner <= COORD_LIMIT,
        -FACTOR_LIMIT <= factor <= FACTOR_LIMIT,
    ensures
        out == tdiv((pos - corner) * factor, 10),
        -SUB_LIMIT <= out <= SUB_LIMIT,
{
    let diff: i64 = pos - corner;
    proof {
        assert((diff as int) * (factor as int) <= 7_000_000_000_000_000_000int
            && -7_000_000_000_000_000_000int <= (diff as int) * (factor as int))
            by (nonlinear_arith)
            requires
                -7_000_000_000_000int <= diff as int <= 7_000_000_000_000int,
                -1_000_000int <= factor as int <= 1_000_000int,
        ;
    }
    let prod: i128 = (diff as i128) * (factor as i128);
    let q: i128 = tdiv_i128(prod, 10);
    proof {
        if prod >= 0 {
            lemma_div_is_ordered(prod as int, 7_000_000_000_000_000_000int, 10);
        } else {
            lemma_div_is_ordered(-(prod as int), 7_000_000_000_000_000_000int, 10);
        }
    }
    q as i64
}

} // verus!
