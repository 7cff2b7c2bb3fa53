//! Pixel data for both internal computations and display.
//!
//! A colour channel is a fixed-point `u32` in `0 ..= CHANNEL_ONE`, where
//! `CHANNEL_ONE` stands for full intensity. The conversion to the 8-bit
//! display form is lossy and happens only at presentation time.
use vstd::prelude::*;

verus! {

use vstd::arithmetic::div_mod::lemma_div_is_ordered;
use vstd::arithmetic::div_mod::lemma_div_multiples_vanish;

/// Full intensity of one colour channel (the fixed-point value of 1.0).
pub const CHANNEL_ONE: u32 = 65536;

/// An RGBA pixel for internal computations.
///
/// Each channel is a fixed-point value in `0 ..= CHANNEL_ONE`.
#[derive(Clone, Copy, Debug, PartialEq, Eq, Structural)]
pub struct Pixel {
    pub r: u32,
    pub g: u32,
    pub b: u32,
    pub a: u32,
}

/// Pixel to be used for display.
#[derive(Clone, Copy, Debug, PartialEq, Eq, Structural)]
pub struct DisplayPixel {
    pub r: u8,
    pub g: u8,
    pub b: u8,
    pub a: u8,
}

/// Numerator of the blended alpha channel, scaled by `CHANNEL_ONE`.
///
/// The exact blended alpha is `strength + dst_a * (1 - strength)` in unit
/// terms; this value is that expression times `CHANNEL_ONE * CHANNEL_ONE`.
pub open spec fn blend_alpha_num(dst_a: int, strength: int) -> int {
    strength * (CHANNEL_ONE as int) + dst_a * ((CHANNEL_ONE as int) - strength)
}

/// The blended value of one colour channel, for `0 < strength < CHANNEL_ONE`:
/// the source channel weighted by the blend strength plus the destination
/// channel weighted by its own remaining alpha, normalised by the blended
/// alpha.
pub open spec fn blend_channel(src_c: int, dst_c: int, dst_a: int, strength: int) -> int {
    (src_c * strength * (CHANNEL_ONE as int) + dst_c * dst_a * ((CHANNEL_ONE as int) - strength))
        / blend_alpha_num(dst_a, strength)
}

/// Alpha compositing of `src` over `dst`, where the alpha channel of `src`
/// is the blend strength: strength zero leaves `dst` unchanged, full
/// strength replaces `dst` by `src`, and anything between composites.
pub open spec fn blend_spec(dst: Pixel, src: Pixel) -> Pixel {
    if src.a == 0 {
        dst
    } else if src.a == CHANNEL_ONE {
        src
    } else {
        Pixel {
            r: blend_channel(src.r as int, dst.r as int, dst.a as int, src.a as int) as u32,
            g: blend_channel(src.g as int, dst.g as int, dst.a as int, src.a as int) as u32,
            b: blend_channel(src.b as int, dst.b as int, dst.a as int, src.a as int) as u32,
            a: (blend_alpha_num(dst.a as int, src.a as int) / (CHANNEL_ONE as int)) as u32,
        }
    }
}

/// The 8-bit display form of a fixed-point channel.
pub open spec fn display_channel(c: int) -> int {
    c * 255 / (CHANNEL_ONE as int)
}

/// The lossy 8-bit display form of a pixel.
pub open spec fn display_of(p: Pixel) -> DisplayPixel {
    DisplayPixel {
        r: display_channel(p.r as int) as u8,
        g: display_channel(p.g as int) as u8,
        b: display_channel(p.b as int) as u8,
        a: display_channel(p.a as int) as u8,
    }
}

impl Pixel {
    /// All four channels are within the fixed-point range.
    pub open spec fn wf(self) -> bool {
        self.r <= CHANNEL_ONE && self.g <= CHANNEL_ONE && self.b <= CHANNEL_ONE && self.a
            <= CHANNEL_ONE
    }

    /// A fully opaque pixel with the given colour channels.
    pub fn opaque(r: u32, g: u32, b: u32) -> (out: Pixel)
        requires
            r <= CHANNEL_ONE,
            g <= CHANNEL_ONE,
            b <= CHANNEL_ONE,
        ensures
            out == (Pixel { r, g, b, a: CHANNEL_ONE }),
            out.wf(),
    {
        Pixel { r, g, b, a: CHANNEL_ONE }
    }

    /// Alpha-blend `src` over this pixel, at strength `src.a`.
    pub fn blend(&mut self, src: &Pixel)
        requires
            old(self).wf(),
            src.wf(),
        ensures
            *final(self) == blend_spec(*old(self), *src),
            final(self).wf(),
    {
        if src.a == 0 {
            // Nothing to composite.
        } else if src.a == CHANNEL_ONE {
            *self = *src;
        } else {
            let r = blend_channel_exec(src.r, self.r, self.a, src.a);
            let g = blend_channel_exec(src.g, self.g, self.a, src.a);
            let b = blend_channel_exec(src.b, self.b, self.a, src.a);
            let a = blend_alpha_exec(self.a, src.a);
            *self = Pixel { r, g, b, a };
        }
    }

    /// Do a lossy conversion to the 8-bit display pixel form.
    pub fn display_pixel(&self) -> (out: DisplayPixel)
        requires
            self.wf(),
        ensures
            out == display_of(*self),
            out.r == display_channel(self.r as int),
            out.g == display_channel(self.g as int),
            out.b == display_channel(self.b as int),
            out.a == display_channel(self.a as int),
    {
        DisplayPixel {
            r: display_channel_exec(self.r),
            g: display_channel_exec(self.g),
            b: display_channel_exec(self.b),
            a: display_channel_exec(self.a),
        }
    }
}

/// One channel of the general blend case, in 64-bit arithmetic.
fn blend_channel_exec(src_c: u32, dst_c: u32, dst_a: u32, strength: u32) -> (out: u32)
    requires
        src_c <= CHANNEL_ONE,
        dst_c <= CHANNEL_ONE,
        dst_a <= CHANNEL_ONE,
        0 < strength < CHANNEL_ONE,
    ensures
        out == blend_channel(src_c as int, dst_c as int, dst_a as int, strength as int),
        out <= CHANNEL_ONE,
{
    let one: u64 = CHANNEL_ONE as u64;
    let s: u64 = strength as u64;
    let inv: u64 = one - s;
    let da: u64 = dst_a as u64;
    proof {
        assert((da as int) * (inv as int) <= 65536 * 65536) by (nonlinear_arith)
            requires
                0 <= da as int <= 65536,
                0 <= inv as int <= 65536,
        ;
    }
    let q: u64 = da * inv;
    let na: u64 = s * one + q;
    proof {
        assert((src_c as int) * (s as int) <= 65536 * 65536) by (nonlinear_arith)
            requires
                0 <= src_c as int <= 65536,
                0 <= s as int <= 65536,
        ;
    }
    let t1: u64 = (src_c as u64) * s;
    proof {
        assert((dst_c as int) * (da as int) <= 65536 * 65536) by (nonlinear_arith)
            requires
                0 <= dst_c as int <= 65536,
                0 <= da as int <= 65536,
        ;
    }
    let t2: u64 = (dst_c as u64) * da;
    proof {
        assert((t2 as int) * (inv as int) <= 65536 * 65536 * 65536) by (nonlinear_arith)
            requires
                0 <= t2 as int <= 65536 * 65536,
                0 <= inv as int <= 65536,
        ;
    }
    let num: u64 = t1 * one + t2 * inv;
    proof {
        let sci = src_c as int;
        let dci = dst_c as int;
        let dai = da as int;
        let si = s as int;
        let invi = inv as int;
        let nai = na as int;
        let numi = num as int;
        assert(numi <= 65536 * nai) by (nonlinear_arith)
            requires
                numi == sci * si * 65536 + dci * dai * invi,
                nai == si * 65536 + dai * invi,
                0 <= sci <= 65536,
                0 <= dci <= 65536,
                0 <= dai,
                0 <= si,
                0 <= invi,
        ;
        lemma_div_is_ordered(numi, 65536 * nai, nai);
        lemma_div_multiples_vanish(65536, nai);
    }
    (num / na) as u32
}

/// The alpha channel of the general blend case, in 64-bit arithmetic.
fn blend_alpha_exec(dst_a: u32, strength: u32) -> (out: u32)
    requires
        dst_a <= CHANNEL_ONE,
        0 < strength < CHANNEL_ONE,
    ensures
        out == blend_alpha_num(dst_a as int, strength as int) / (CHANNEL_ONE as int),
        out <= CHANNEL_ONE,
{
    let one: u64 = CHANNEL_ONE as u64;
    let s: u64 = strength as u64;
    let inv: u64 = one - s;
    let da: u64 = dst_a as u64;
    proof {
        assert((da as int) * (inv as int) <= 65536 * (inv as int)) by (nonlinear_arith)
            requires
                0 <= da as int <= 65536,
                0 <= inv as int,
        ;
    }
    let na: u64 = s * one + da * inv;
    proof {
        lemma_div_is_ordered(na as int, 65536int * 65536, 65536);
        lemma_div_multiples_vanish(65536, 65536);
    }
    (na / one) as u32
}

/// One channel of the lossy conversion to display form.
fn display_channel_exec(c: u32) -> (out: u8)
    requires
        c <= CHANNEL_ONE,
    ensures
        out == display_channel(c as int),
{
    let num: u64 = (c as u64) * 255;
    proof {
        lemma_div_is_ordered(num as int, 65536int * 255, 65536);
        lemma_div_multiples_vanish(255, 65536);
    }
    (num / (CHANNEL_ONE as u64)) as u8
}

} // verus!
