//! Stroke rasterization and its invertible operations: a paint brush that
//! walks a parametric line, stamping its kernel along the way, and a drag
//! recorder that turns a whole gesture into a minimal, invertible diff.
use vstd::prelude::*;

use crate::brush::Brush;
use crate::brush::StampPoint;
use crate::diff::DiffEntry;
use crate::diff::DiffMap;
use crate::diff::PixelOp;
use crate::image::Image;
use crate::pixel::CHANNEL_ONE;
use crate::pixel::Pixel;
use crate::pixel::blend_spec;
use crate::view::COORD_LIMIT;
use crate::view::ImageView;
use crate::view::SUB_LIMIT;
use crate::view::tdiv;
use crate::view::tdiv_i128;

verus! {

use vstd::arithmetic::div_mod::lemma_div_is_ordered;
use vstd::arithmetic::div_mod::lemma_div_multiples_vanish;
use vstd::arithmetic::mul::lemma_mul_inequality;

/// Increment factor for the paint brush operation: the fixed step size of
/// the parametric line walk, in milli canvas units.
pub const PAINT_STEP_MILLI: i64 = 400;

/// Bound on the integer canvas coordinates a stamp centre can take,
/// derived from the sub-pixel coordinate bound.
pub const CENTER_LIMIT: i64 = 3_000_000_000_000_000;

/// The floor of the square root of `n` (zero for negative `n`).
pub open spec fn isqrt_spec(n: int) -> int
    decreases n,
{
    if n <= 0 {
        0
    } else {
        let r = isqrt_spec(n - 1);
        if (r + 1) * (r + 1) <= n {
            r + 1
        } else {
            r
        }
    }
}

/// `isqrt_spec` really is the floor of the square root.
pub proof fn lemma_isqrt_spec_bounds(n: int)
    requires
        n >= 0,
    ensures
        isqrt_spec(n) >= 0,
        isqrt_spec(n) * isqrt_spec(n) <= n,
        n < (isqrt_spec(n) + 1) * (isqrt_spec(n) + 1),
    decreases n,
{
    if n == 0 {
    } else {
        lemma_isqrt_spec_bounds(n - 1);
        let r = isqrt_spec(n - 1);
        if (r + 1) * (r + 1) <= n {
            assert(n < (r + 2) * (r + 2)) by (nonlinear_arith)
                requires
                    n - 1 < (r + 1) * (r + 1),
                    r >= 0,
            ;
        }
    }
}

/// The floor of the square root is unique: any value whose square brackets
/// `n` is `isqrt_spec(n)`.
pub proof fn lemma_isqrt_unique(n: int, r: int)
    requires
        n >= 0,
        r >= 0,
        r * r <= n,
        n < (r + 1) * (r + 1),
    ensures
        r == isqrt_spec(n),
{
    lemma_isqrt_spec_bounds(n);
    let s = isqrt_spec(n);
    assert(r == s) by (nonlinear_arith)
        requires
            r >= 0,
            s >= 0,
            r * r <= n,
            n < (r + 1) * (r + 1),
            s * s <= n,
            n < (s + 1) * (s + 1),
    ;
}

/// The floor of the square root, by binary search.
fn isqrt(n: u128) -> (out: u64)
    requires
        n < 0x4000_0000_0000_0000_0000_0000_0000_0000u128,
    ensures
        out == isqrt_spec(n as int),
        (out as int) * (out as int) <= n as int,
        (n as int) < ((out as int) + 1) * ((out as int) + 1),
{
    if n == 0 {
        proof {
            lemma_isqrt_unique(0, 0);
        }
        return 0;
    }
    let mut lo: u128 = 0;
    let mut hi: u128 = 0x8000_0000_0000_0000u128;
    proof {
        assert(0x8000_0000_0000_0000int * 0x8000_0000_0000_0000int
            == 0x4000_0000_0000_0000_0000_0000_0000_0000int) by (nonlinear_arith);
    }
    while lo + 1 < hi
        invariant
            0 <= lo < hi <= 0x8000_0000_0000_0000u128,
            (lo as int) * (lo as int) <= n as int,
            (n as int) < (hi as int) * (hi as int),
        decreases hi - lo,
    {
        let mid: u128 = lo + (hi - lo) / 2;
        proof {
            assert((mid as int) * (mid as int) < 0x8000_0000_0000_0000_0000_0000_0000_0000int)
                by (nonlinear_arith)
                requires
                    0 <= mid as int <= 0x8000_0000_0000_0000int,
            ;
        }
        if mid * mid <= n {
            lo = mid;
        } else {
            hi = mid;
        }
    }
    proof {
        lemma_isqrt_unique(n as int, lo as int);
    }
    lo as u64
}

/// One application of a kernel prefix of length `n`, centred at integer
/// canvas coordinate (cx, cy), over a canvas and the diff recorded so
/// far. Each kernel point blends the paint colour at the point's weight
/// into its target pixel; targets off the canvas are skipped silently;
/// the pre-blend pixel is recorded in the diff only where the diff does
/// not already hold that coordinate.
pub open spec fn stamp_upto(
    canvas: Map<(int, int), Pixel>,
    diff: Map<(int, int), Pixel>,
    kernel: Seq<StampPoint>,
    color: Pixel,
    cx: int,
    cy: int,
    n: int,
) -> (Map<(int, int), Pixel>, Map<(int, int), Pixel>)
    decreases n,
{
    if n <= 0 {
        (canvas, diff)
    } else {
        let prev = stamp_upto(canvas, diff, kernel, color, cx, cy, n - 1);
        let c = prev.0;
        let d = prev.1;
        let p = kernel[n - 1];
        let t = ((cx + p.dx, cy + p.dy));
        if c.dom().contains(t) {
            let src = Pixel { r: color.r, g: color.g, b: color.b, a: p.weight };
            let c2 = c.insert(t, blend_spec(c[t], src));
            let d2 = if d.dom().contains(t) {
                d
            } else {
                d.insert(t, c[t])
            };
            (c2, d2)
        } else {
            (c, d)
        }
    }
}

/// One full stamp: the whole kernel applied at (cx, cy).
pub open spec fn stamp_full(
    canvas: Map<(int, int), Pixel>,
    diff: Map<(int, int), Pixel>,
    kernel: Seq<StampPoint>,
    color: Pixel,
    cx: int,
    cy: int,
) -> (Map<(int, int), Pixel>, Map<(int, int), Pixel>) {
    stamp_upto(canvas, diff, kernel, color, cx, cy, kernel.len() as int)
}

/// A stamp application changes the canvas only at coordinates it also
/// records, records only pre-change canvas values at new coordinates, and
/// never disturbs what the diff already holds.
pub proof fn lemma_stamp_preserves(
    canvas: Map<(int, int), Pixel>,
    diff: Map<(int, int), Pixel>,
    kernel: Seq<StampPoint>,
    color: Pixel,
    cx: int,
    cy: int,
    n: int,
)
    ensures
        ({
            let c2 = stamp_upto(canvas, diff, kernel, color, cx, cy, n).0;
            let d2 = stamp_upto(canvas, diff, kernel, color, cx, cy, n).1;
            &&& c2.dom() == canvas.dom()
            &&& forall|k: (int, int)|
                #[trigger] diff.dom().contains(k) ==> d2.dom().contains(k) && d2[k] == diff[k]
            &&& forall|k: (int, int)|
                #[trigger] d2.dom().contains(k) ==> diff.dom().contains(k) || (
                canvas.dom().contains(k) && d2[k] == canvas[k])
            &&& forall|k: (int, int)|
                canvas.dom().contains(k) && !d2.dom().contains(k) ==> #[trigger] c2[k] == canvas[k]
            &&& forall|k: (int, int)|
                canvas.dom().contains(k) && !(#[trigger] d2.dom().contains(k)) ==> c2[k]
                    == canvas[k]
        }),
    decreases n,
{
    if n > 0 {
        lemma_stamp_preserves(canvas, diff, kernel, color, cx, cy, n - 1);
        let prev = stamp_upto(canvas, diff, kernel, color, cx, cy, n - 1);
        let c = prev.0;
        let d = prev.1;
        let cur = stamp_upto(canvas, diff, kernel, color, cx, cy, n);
        let p = kernel[n - 1];
        let t = ((cx + p.dx, cy + p.dy));
        if c.dom().contains(t) {
            let src = Pixel { r: color.r, g: color.g, b: color.b, a: p.weight };
            assert(cur.0 == c.insert(t, blend_spec(c[t], src)));
            assert(cur.0.dom() =~= canvas.dom());
            if !d.dom().contains(t) {
                assert(cur.1 == d.insert(t, c[t]));
                assert(!diff.dom().contains(t));
                assert(canvas.dom().contains(t));
                assert(c[t] == canvas[t]);
            } else {
                assert(cur.1 == d);
            }
        } else {
            assert(cur == prev);
        }
    }
}

/// The squared Euclidean length of a segment, in milli canvas units.
pub open spec fn seg_len2(ax: int, ay: int, bx: int, by: int) -> int {
    (bx - ax) * (bx - ax) + (by - ay) * (by - ay)
}

/// The Euclidean length of a segment, rounded down, in milli canvas units.
pub open spec fn seg_len(ax: int, ay: int, bx: int, by: int) -> int {
    isqrt_spec(seg_len2(ax, ay, bx, by))
}

/// How many stamps the parametric walk of a segment applies: one per step
/// of `PAINT_STEP_MILLI` along the line, the start point always included,
/// the exact endpoint only where a step lands on it.
pub open spec fn seg_steps(ax: int, ay: int, bx: int, by: int) -> int {
    let l = seg_len(ax, ay, bx, by);
    if l == 0 {
        1
    } else {
        (l + PAINT_STEP_MILLI - 1) / (PAINT_STEP_MILLI as int)
    }
}

/// The sub-pixel position of walk step `i`: the start point plus `i`
/// steps of the segment direction, truncated toward zero.
pub open spec fn walk_point(ax: int, ay: int, bx: int, by: int, i: int) -> (int, int) {
    let l = seg_len(ax, ay, bx, by);
    if l == 0 {
        (ax, ay)
    } else {
        (
            ax + tdiv(i * (PAINT_STEP_MILLI as int) * (bx - ax), l),
            ay + tdiv(i * (PAINT_STEP_MILLI as int) * (by - ay), l),
        )
    }
}

/// The first `n` stamps of the parametric walk of a segment, over a
/// canvas and the diff recorded so far.
pub open spec fn walk_upto(
    canvas: Map<(int, int), Pixel>,
    diff: Map<(int, int), Pixel>,
    kernel: Seq<StampPoint>,
    color: Pixel,
    ax: int,
    ay: int,
    bx: int,
    by: int,
    n: int,
) -> (Map<(int, int), Pixel>, Map<(int, int), Pixel>)
    decreases n,
{
    if n <= 0 {
        (canvas, diff)
    } else {
        let prev = walk_upto(canvas, diff, kernel, color, ax, ay, bx, by, n - 1);
        let p = walk_point(ax, ay, bx, by, n - 1);
        stamp_full(prev.0, prev.1, kernel, color, tdiv(p.0, 1000), tdiv(p.1, 1000))
    }
}

/// The whole walk of one segment: all of its stamps.
pub open spec fn walk_full(
    canvas: Map<(int, int), Pixel>,
    diff: Map<(int, int), Pixel>,
    kernel: Seq<StampPoint>,
    color: Pixel,
    ax: int,
    ay: int,
    bx: int,
    by: int,
) -> (Map<(int, int), Pixel>, Map<(int, int), Pixel>) {
    walk_upto(canvas, diff, kernel, color, ax, ay, bx, by, seg_steps(ax, ay, bx, by))
}

/// A segment walk changes the canvas only at coordinates it also records,
/// records only pre-walk canvas values at new coordinates, and never
/// disturbs what the diff already holds.
pub proof fn lemma_walk_preserves(
    canvas: Map<(int, int), Pixel>,
    diff: Map<(int, int), Pixel>,
    kernel: Seq<StampPoint>,
    color: Pixel,
    ax: int,
    ay: int,
    bx: int,
    by: int,
    n: int,
)
    ensures
        ({
            let c2 = walk_upto(canvas, diff, kernel, color, ax, ay, bx, by, n).0;
            let d2 = walk_upto(canvas, diff, kernel, color, ax, ay, bx, by, n).1;
            &&& c2.dom() == canvas.dom()
            &&& forall|k: (int, int)|
                #[trigger] diff.dom().contains(k) ==> d2.dom().contains(k) && d2[k] == diff[k]
            &&& forall|k: (int, int)|
                #[trigger] d2.dom().contains(k) ==> diff.dom().contains(k) || (
                canvas.dom().contains(k) && d2[k] == canvas[k])
            &&& forall|k: (int, int)|
                canvas.dom().contains(k) && !d2.dom().contains(k) ==> #[trigger] c2[k] == canvas[k]
            &&& forall|k: (int, int)|
                canvas.dom().contains(k) && !(#[trigger] d2.dom().contains(k)) ==> c2[k]
                    == canvas[k]
        }),
    decreases n,
{
    if n > 0 {
        lemma_walk_preserves(canvas, diff, kernel, color, ax, ay, bx, by, n - 1);
        let prev = walk_upto(canvas, diff, kernel, color, ax, ay, bx, by, n - 1);
        let c1 = prev.0;
        let d1 = prev.1;
        let p = walk_point(ax, ay, bx, by, n - 1);
        lemma_stamp_preserves(
            c1,
            d1,
            kernel,
            color,
            tdiv(p.0, 1000),
            tdiv(p.1, 1000),
            kernel.len() as int,
        );
        let cur = walk_upto(canvas, diff, kernel, color, ax, ay, bx, by, n);
        let c2 = cur.0;
        let d2 = cur.1;
        assert forall|k: (int, int)| #[trigger] diff.dom().contains(k) implies d2.dom().contains(k)
            && d2[k] == diff[k] by {
            assert(d1.dom().contains(k));
        }
        assert forall|k: (int, int)| #[trigger] d2.dom().contains(k) implies diff.dom().contains(k)
            || (canvas.dom().contains(k) && d2[k] == canvas[k]) by {
            if d1.dom().contains(k) {
                assert(d2[k] == d1[k]);
            } else {
                assert(c1[k] == canvas[k]);
            }
        }
        assert forall|k: (int, int)|
            canvas.dom().contains(k) && !(#[trigger] d2.dom().contains(k)) implies c2[k]
            == canvas[k] by {
            assert(!d1.dom().contains(k));
            assert(c2[k] == c1[k]);
            assert(c1[k] == canvas[k]);
        }
    }
}

/// Each step count is one more than the steps before it: the exit bound
/// of the walk, as properties of the ceiling division.
proof fn lemma_steps_ceil(l: int)
    requires
        l >= 1,
    ensures
        ({
            let steps = (l + PAINT_STEP_MILLI - 1) / (PAINT_STEP_MILLI as int);
            &&& steps >= 1
            &&& l <= steps * 400
            &&& steps * 400 < l + 400
        }),
{
    let steps = (l + 399) / 400;
    vstd::arithmetic::div_mod::lemma_fundamental_div_mod(l + 399, 400);
    vstd::arithmetic::div_mod::lemma_mod_bound(l + 399, 400);
    assert(400 * steps == steps * 400) by (nonlinear_arith);
}

/// A simple paint brush operation: blends a fixed colour through a brush
/// kernel along drag segments, recording the pre-stroke pixels for undo.
pub struct PaintBrush {
    /// The brush whose kernel is stamped.
    pub brush: Brush,
    /// The paint colour.
    pub color: Pixel,
    /// Original pixels that have been overwritten, for the undo operation.
    pub undo_pixels: DiffMap,
}

impl PaintBrush {
    /// The brush, the colour and the recorded diff are all well-formed.
    pub open spec fn wf(self) -> bool {
        &&& self.brush.wf()
        &&& self.color.wf()
        &&& self.undo_pixels.wf()
    }

    /// The recorded diff as a mathematical map.
    pub open spec fn diff(self) -> Map<(int, int), Pixel> {
        self.undo_pixels.as_map()
    }

    /// Create a new simple brush operation from a brush and a colour.
    pub fn new(brush: Brush, color: Pixel) -> (out: PaintBrush)
        requires
            brush.wf(),
            color.wf(),
        ensures
            out.brush == brush,
            out.color == color,
            out.wf(),
            out.diff() == Map::<(int, int), Pixel>::empty(),
            out.undo_pixels.entries@.len() == 0,
    {
        PaintBrush { brush, color, undo_pixels: DiffMap::new() }
    }

    /// Fill the brush kernel around the canvas coordinate (x, y):
    /// exactly one stamp application.
    pub fn fill(&mut self, image: &mut Image, x: i64, y: i64)
        requires
            old(self).wf(),
            old(image).wf(),
            old(self).undo_pixels.fits(old(image).width as int, old(image).height as int),
            -CENTER_LIMIT <= x <= CENTER_LIMIT,
            -CENTER_LIMIT <= y <= CENTER_LIMIT,
        ensures
            final(self).wf(),
            final(image).wf(),
            final(image).width == old(image).width,
            final(image).height == old(image).height,
            final(self).brush == old(self).brush,
            final(self).color == old(self).color,
            final(self).undo_pixels.fits(old(image).width as int, old(image).height as int),
            final(image).as_map() == stamp_full(
                old(image).as_map(),
                old(self).diff(),
                old(self).brush.kernel@,
                old(self).color,
                x as int,
                y as int,
            ).0,
            final(self).diff() == stamp_full(
                old(image).as_map(),
                old(self).diff(),
                old(self).brush.kernel@,
                old(self).color,
                x as int,
                y as int,
            ).1,
    {
        let ghost canvas0 = image.as_map();
        let ghost diff0 = self.undo_pixels.as_map();
        let ghost kernel = self.brush.kernel@;
        let ghost color = self.color;
        let n = self.brush.kernel.len();
        let mut i: usize = 0;
        while i < n
            invariant
                i <= n,
                n == kernel.len(),
                self.brush.kernel@ == kernel,
                self.wf(),
                self.color == color,
                image.wf(),
                image.width == old(image).width,
                image.height == old(image).height,
                canvas0 == old(image).as_map(),
                diff0 == old(self).diff(),
                self.brush == old(self).brush,
                -CENTER_LIMIT <= x <= CENTER_LIMIT,
                -CENTER_LIMIT <= y <= CENTER_LIMIT,
                self.undo_pixels.fits(old(image).width as int, old(image).height as int),
                image.as_map() == stamp_upto(
                    canvas0,
                    diff0,
                    kernel,
                    color,
                    x as int,
                    y as int,
                    i as int,
                ).0,
                self.diff() == stamp_upto(
                    canvas0,
                    diff0,
                    kernel,
                    color,
                    x as int,
                    y as int,
                    i as int,
                ).1,
            decreases n - i,
        {
            let ghost c = stamp_upto(canvas0, diff0, kernel, color, x as int, y as int, i as int).0;
            let ghost d = stamp_upto(canvas0, diff0, kernel, color, x as int, y as int, i as int).1;
            let p = self.brush.kernel[i];
            let tx: i64 = x + (p.dx as i64);
            let ty: i64 = y + (p.dy as i64);
            let ghost t = ((tx as int, ty as int));
            if 0 <= tx && 0 <= ty && tx < image.width as i64 && ty < image.height as i64 {
                let txu: u32 = tx as u32;
                let tyu: u32 = ty as u32;
                proof {
                    assert(c.dom().contains(t));
                    crate::image::lemma_image_at_wf(*image, tx as int, ty as int);
                }
                let before = *image.get(txu, tyu);
                let mut px = before;
                px.blend(&Pixel { r: self.color.r, g: self.color.g, b: self.color.b, a: p.weight });
                image.set(txu, tyu, px);
                self.undo_pixels.insert_if_absent(txu, tyu, before);
                proof {
                    let next = stamp_upto(
                        canvas0,
                        diff0,
                        kernel,
                        color,
                        x as int,
                        y as int,
                        i + 1 as int,
                    );
                    assert(image.as_map() =~= c.insert(t, blend_spec(c[t], Pixel {
                        r: color.r,
                        g: color.g,
                        b: color.b,
                        a: p.weight,
                    })));
                    assert(image.as_map() == next.0);
                    assert(self.diff() == next.1);
                }
            } else {
                proof {
                    assert(!c.dom().contains(t));
                    let next = stamp_upto(
                        canvas0,
                        diff0,
                        kernel,
                        color,
                        x as int,
                        y as int,
                        i + 1 as int,
                    );
                    assert(image.as_map() == next.0);
                    assert(self.diff() == next.1);
                }
            }
            i += 1;
        }
    }

    /// Handle one drag line: walk the parametric segment from `a` to `b`
    /// (sub-pixel canvas coordinates, milli units) in fixed steps,
    /// stamping the kernel at every step. A zero-length segment is walked
    /// as a single step, so the stamp is applied exactly once.
    pub fn handle_line(&mut self, image: &mut Image, _image_view: &ImageView, a: (i64, i64), b: (
        i64,
        i64,
    ))
        requires
            old(self).wf(),
            old(image).wf(),
            old(self).undo_pixels.fits(old(image).width as int, old(image).height as int),
            -SUB_LIMIT <= a.0 <= SUB_LIMIT,
            -SUB_LIMIT <= a.1 <= SUB_LIMIT,
            -SUB_LIMIT <= b.0 <= SUB_LIMIT,
            -SUB_LIMIT <= b.1 <= SUB_LIMIT,
        ensures
            final(self).wf(),
            final(image).wf(),
            final(image).width == old(image).width,
            final(image).height == old(image).height,
            final(self).brush == old(self).brush,
            final(self).color == old(self).color,
            final(self).undo_pixels.fits(old(image).width as int, old(image).height as int),
            final(image).as_map() == walk_full(
                old(image).as_map(),
                old(self).diff(),
                old(self).brush.kernel@,
                old(self).color,
                a.0 as int,
                a.1 as int,
                b.0 as int,
                b.1 as int,
            ).0,
            final(self).diff() == walk_full(
                old(image).as_map(),
                old(self).diff(),
                old(self).brush.kernel@,
                old(self).color,
                a.0 as int,
                a.1 as int,
                b.0 as int,
                b.1 as int,
            ).1,
    {
        let ghost canvas0 = image.as_map();
        let ghost diff0 = self.undo_pixels.as_map();
        let ghost kernel = self.brush.kernel@;
        let ghost color = self.color;
        let alpha: i64 = b.0 - a.0;
        let beta: i64 = b.1 - a.1;
        proof {
            assert((alpha as int) * (alpha as int) <= 2_000_000_000_000_000_000_000_000_000_000_000_000int
                && 0 <= (alpha as int) * (alpha as int)) by (nonlinear_arith)
                requires
                    -1_400_000_000_000_000_000int <= alpha as int <= 1_400_000_000_000_000_000int,
            ;
            assert((beta as int) * (beta as int) <= 2_000_000_000_000_000_000_000_000_000_000_000_000int
                && 0 <= (beta as int) * (beta as int)) by (nonlinear_arith)
                requires
                    -1_400_000_000_000_000_000int <= beta as int <= 1_400_000_000_000_000_000int,
            ;
        }
        let len2: i128 = (alpha as i128) * (alpha as i128) + (beta as i128) * (beta as i128);
        let l: u64 = isqrt(len2 as u128);
        proof {
            assert(l as int <= 2_000_000_000_000_000_000int) by (nonlinear_arith)
                requires
                    0 <= l as int,
                    (l as int) * (l as int) <= 4_000_000_000_000_000_000_000_000_000_000_000_000int,
            ;
            assert(seg_len2(a.0 as int, a.1 as int, b.0 as int, b.1 as int) == len2 as int);
        }
        if l == 0 {
            let cx = trunc_milli(a.0);
            let cy = trunc_milli(a.1);
            self.fill(image, cx, cy);
            proof {
                assert(seg_steps(a.0 as int, a.1 as int, b.0 as int, b.1 as int) == 1);
                assert(walk_point(a.0 as int, a.1 as int, b.0 as int, b.1 as int, 0) == (
                    a.0 as int,
                    a.1 as int,
                ));
                assert(walk_upto(
                    canvas0,
                    diff0,
                    kernel,
                    color,
                    a.0 as int,
                    a.1 as int,
                    b.0 as int,
                    b.1 as int,
                    0,
                ) == (canvas0, diff0));
                assert(image.as_map() == walk_upto(
                    canvas0,
                    diff0,
                    kernel,
                    color,
                    a.0 as int,
                    a.1 as int,
                    b.0 as int,
                    b.1 as int,
                    1,
                ).0);
                assert(self.diff() == walk_upto(
                    canvas0,
                    diff0,
                    kernel,
                    color,
                    a.0 as int,
                    a.1 as int,
                    b.0 as int,
                    b.1 as int,
                    1,
                ).1);
            }
        } else {
            let ghost steps = seg_steps(a.0 as int, a.1 as int, b.0 as int, b.1 as int);
            proof {
                lemma_steps_ceil(l as int);
            }
            let mut i: u64 = 0;
            while i * 400 < l
                invariant
                    self.wf(),
                    image.wf(),
                    image.width == old(image).width,
                    image.height == old(image).height,
                    self.brush == old(self).brush,
                    self.brush.kernel@ == kernel,
                    self.color == color,
                    self.undo_pixels.fits(old(image).width as int, old(image).height as int),
                    canvas0 == old(image).as_map(),
                    diff0 == old(self).diff(),
                    -SUB_LIMIT <= a.0 <= SUB_LIMIT,
                    -SUB_LIMIT <= a.1 <= SUB_LIMIT,
                    alpha == b.0 - a.0,
                    beta == b.1 - a.1,
                    -1_400_000_000_000_000_000 <= alpha <= 1_400_000_000_000_000_000,
                    -1_400_000_000_000_000_000 <= beta <= 1_400_000_000_000_000_000,
                    1 <= l <= 2_000_000_000_000_000_000u64,
                    l == seg_len(a.0 as int, a.1 as int, b.0 as int, b.1 as int),
                    steps == seg_steps(a.0 as int, a.1 as int, b.0 as int, b.1 as int),
                    steps >= 1,
                    l <= steps * 400 < l + 400,
                    0 <= i <= steps,
                    image.as_map() == walk_upto(
                        canvas0,
                        diff0,
                        kernel,
                        color,
                        a.0 as int,
                        a.1 as int,
                        b.0 as int,
                        b.1 as int,
                        i as int,
                    ).0,
                    self.diff() == walk_upto(
                        canvas0,
                        diff0,
                        kernel,
                        color,
                        a.0 as int,
                        a.1 as int,
                        b.0 as int,
                        b.1 as int,
                        i as int,
                    ).1,
                decreases steps - i,
            {
                let off_x = walk_offset(i, alpha, l);
                let off_y = walk_offset(i, beta, l);
                let px: i64 = a.0 + off_x;
                let py: i64 = a.1 + off_y;
                let cx = trunc_milli(px);
                let cy = trunc_milli(py);
                self.fill(image, cx, cy);
                proof {
                    assert(walk_point(a.0 as int, a.1 as int, b.0 as int, b.1 as int, i as int) == (
                        px as int,
                        py as int,
                    ));
                    assert(400 * (i as int) < 400 * steps) by (nonlinear_arith)
                        requires
                            (i as int) * 400 < l as int,
                            l as int <= steps * 400,
                    ;
                    assert(i as int + 1 <= steps);
                }
                i += 1;
            }
            proof {
                if (i as int) < steps {
                    assert((i as int) * 400 <= (steps - 1) * 400) by (nonlinear_arith)
                        requires
                            i as int <= steps - 1,
                    ;
                    assert((steps - 1) * 400 < l as int) by (nonlinear_arith)
                        requires
                            steps * 400 < l as int + 400,
                    ;
                    assert(false);
                }
                assert(i as int == steps);
            }
        }
    }

    /// Convert the recorded diff to an undoable/redoable operation:
    /// nothing where no pixel was ever touched, the diff verbatim where
    /// one was.
    pub fn to_op(&self) -> (out: Option<PixelOp>)
        requires
            self.wf(),
        ensures
            match out {
                Some(op) => self.diff() != Map::<(int, int), Pixel>::empty() && op.as_map()
                    == self.diff() && op.undo_pixels.entries@ == self.undo_pixels.entries@
                    && op.wf(),
                None => self.diff() == Map::<(int, int), Pixel>::empty(),
            },
    {
        if self.undo_pixels.is_empty() {
            return None;
        }
        let n = self.undo_pixels.entries.len();
        let mut entries: Vec<DiffEntry> = Vec::new();
        let mut i: usize = 0;
        while i < n
            invariant
                i <= n,
                n == self.undo_pixels.entries@.len(),
                entries@ =~= self.undo_pixels.entries@.take(i as int),
            decreases n - i,
        {
            entries.push(self.undo_pixels.entries[i]);
            i += 1;
        }
        proof {
            assert(entries@ =~= self.undo_pixels.entries@);
        }
        Some(PixelOp::new(DiffMap { entries }))
    }
}

/// The lifecycle of a drag gesture.
#[derive(Clone, Copy, Debug, PartialEq, Eq, Structural)]
pub enum DragState {
    /// Created, no point recorded yet.
    Idle,
    /// The start point was recorded; updates are accepted.
    Active,
    /// The final offset was recorded; only conversion to an operation
    /// remains.
    Finished,
}

/// Stored representation of a drag input gesture: the start point, the
/// offsets recorded since, and the paint handler that rasterizes each
/// segment and accumulates the undo diff.
pub struct DragInput {
    /// Where the gesture stands in its lifecycle.
    pub state: DragState,
    /// First screen point, in milli display units.
    pub start_x: i64,
    /// First screen point, in milli display units.
    pub start_y: i64,
    /// Input drag points, stored as offsets from the first screen point,
    /// in milli display units.
    pub points: Vec<(i64, i64)>,
    /// Drag handler: rasterizes segments and records the undo diff.
    pub handler: PaintBrush,
    /// The canvas as it stood when the stroke began.
    pub base: Ghost<Map<(int, int), Pixel>>,
}

impl DragInput {
    /// The recorded diff as a mathematical map.
    pub open spec fn diff(self) -> Map<(int, int), Pixel> {
        self.handler.diff()
    }

    /// The handler is well-formed, all recorded positions are within the
    /// display-range guard, and an unstarted gesture has recorded nothing.
    pub open spec fn wf(self) -> bool {
        &&& self.handler.wf()
        &&& -COORD_LIMIT <= self.start_x <= COORD_LIMIT
        &&& -COORD_LIMIT <= self.start_y <= COORD_LIMIT
        &&& forall|i: int|
            0 <= i < self.points@.len() ==> {
                let p = #[trigger] self.points@[i];
                -COORD_LIMIT <= p.0 <= COORD_LIMIT && -COORD_LIMIT <= p.1 <= COORD_LIMIT
            }
        &&& self.state != DragState::Idle ==> self.points@.len() >= 1 && self.points@[0] == (
        (0i64, 0i64))
        &&& self.state == DragState::Idle ==> self.points@.len() == 0
            && self.handler.undo_pixels.entries@.len() == 0
    }

    /// The relation a started stroke keeps with the canvas it paints on:
    /// every coordinate the diff records lies on the canvas and holds the
    /// pixel value the canvas had when the stroke began, and every
    /// coordinate the diff does not record still holds that value.
    pub open spec fn stroke_inv(self, image: Image) -> bool {
        &&& image.wf()
        &&& self.handler.undo_pixels.fits(image.width as int, image.height as int)
        &&& self.base@.dom() == image.as_map().dom()
        &&& forall|k: (int, int)|
            #[trigger] self.diff().dom().contains(k) ==> self.base@.dom().contains(k)
                && self.diff()[k] == self.base@[k]
        &&& forall|k: (int, int)|
            self.base@.dom().contains(k) && !self.diff().dom().contains(k)
                ==> #[trigger] image.as_map()[k] == self.base@[k]
    }

    /// The canvas-space endpoint that a recorded offset maps to.
    pub open spec fn seg_endpoint(self, view: ImageView, off_x: int, off_y: int) -> (int, int) {
        view.to_canvas_sub(self.start_x + off_x, self.start_y + off_y)
    }

    /// Create a new drag gesture around a fresh handler.
    pub fn new(drag_handler: PaintBrush) -> (out: DragInput)
        requires
            drag_handler.wf(),
            drag_handler.undo_pixels.entries@.len() == 0,
        ensures
            out.wf(),
            out.state == DragState::Idle,
            out.handler == drag_handler,
            out.points@.len() == 0,
    {
        DragInput {
            state: DragState::Idle,
            start_x: 0,
            start_y: 0,
            points: Vec::new(),
            handler: drag_handler,
            base: Ghost(Map::empty()),
        }
    }

    /// Add the first point of a drag gesture: record the start position
    /// and the implicit first offset (0, 0). Nothing is painted yet; the
    /// first segment is walked by the first update.
    pub fn start(&mut self, image: &Image, start_x: i64, start_y: i64)
        requires
            old(self).wf(),
            old(self).state == DragState::Idle,
            image.wf(),
            -COORD_LIMIT <= start_x <= COORD_LIMIT,
            -COORD_LIMIT <= start_y <= COORD_LIMIT,
        ensures
            final(self).wf(),
            final(self).state == DragState::Active,
            final(self).start_x == start_x,
            final(self).start_y == start_y,
            final(self).points@ =~= seq![(0i64, 0i64)],
            final(self).handler == old(self).handler,
            final(self).base@ == image.as_map(),
            final(self).stroke_inv(*image),
            final(self).diff() == Map::<(int, int), Pixel>::empty(),
    {
        self.start_x = start_x;
        self.start_y = start_y;
        self.points.push((0, 0));
        self.state = DragState::Active;
        self.base = Ghost(image.as_map());
    }

    /// Get the canvas coordinates for the given offsets from the start
    /// point. These may lie outside the bounds of the actual canvas.
    fn get_image_coords(
        &self,
        image: &Image,
        image_view: &ImageView,
        off_x: i64,
        off_y: i64,
    ) -> (out: (i64, i64))
        requires
            image_view.wf(),
            -COORD_LIMIT <= self.start_x <= COORD_LIMIT,
            -COORD_LIMIT <= self.start_y <= COORD_LIMIT,
            -COORD_LIMIT <= off_x <= COORD_LIMIT,
            -COORD_LIMIT <= off_y <= COORD_LIMIT,
        ensures
            (out.0 as int, out.1 as int) == self.seg_endpoint(
                *image_view,
                off_x as int,
                off_y as int,
            ),
            -SUB_LIMIT <= out.0 <= SUB_LIMIT,
            -SUB_LIMIT <= out.1 <= SUB_LIMIT,
    {
        image_view.get_image_coords_f(image, self.start_x + off_x, self.start_y + off_y)
    }

    /// Add the next point to the drag gesture: walk the segment from the
    /// previously recorded offset to this one, stamping the brush along
    /// it, and record the offset.
    pub fn update(&mut self, image: &mut Image, image_view: &ImageView, off_x: i64, off_y: i64)
        requires
            old(self).wf(),
            old(self).state == DragState::Active,
            old(image).wf(),
            old(self).handler.undo_pixels.fits(
                old(image).width as int,
                old(image).height as int,
            ),
            image_view.wf(),
            -COORD_LIMIT <= off_x <= COORD_LIMIT,
            -COORD_LIMIT <= off_y <= COORD_LIMIT,
        ensures
            final(self).wf(),
            final(self).state == DragState::Active,
            final(image).wf(),
            final(self).handler.undo_pixels.fits(
                old(image).width as int,
                old(image).height as int,
            ),
            old(self).stroke_inv(*old(image)) ==> final(self).stroke_inv(*final(image)),
            final(image).width == old(image).width,
            final(image).height == old(image).height,
            final(self).start_x == old(self).start_x,
            final(self).start_y == old(self).start_y,
            final(self).base == old(self).base,
            final(self).handler.brush == old(self).handler.brush,
            final(self).handler.color == old(self).handler.color,
            final(self).points@ =~= old(self).points@.push((off_x, off_y)),
            ({
                let a = old(self).seg_endpoint(
                    *image_view,
                    old(self).points@.last().0 as int,
                    old(self).points@.last().1 as int,
                );
                let b = old(self).seg_endpoint(*image_view, off_x as int, off_y as int);
                let walked = walk_full(
                    old(image).as_map(),
                    old(self).diff(),
                    old(self).handler.brush.kernel@,
                    old(self).handler.color,
                    a.0,
                    a.1,
                    b.0,
                    b.1,
                );
                final(image).as_map() == walked.0 && final(self).diff() == walked.1
            }),
    {
        let ghost c0 = image.as_map();
        let ghost d0 = self.diff();
        let ghost kernel = self.handler.brush.kernel@;
        let ghost color = self.handler.color;
        let n = self.points.len();
        let last = self.points[n - 1];
        let a = self.get_image_coords(image, image_view, last.0, last.1);
        let b = self.get_image_coords(image, image_view, off_x, off_y);
        self.handler.handle_line(image, image_view, a, b);
        self.points.push((off_x, off_y));
        proof {
            let steps = seg_steps(a.0 as int, a.1 as int, b.0 as int, b.1 as int);
            lemma_walk_preserves(
                c0,
                d0,
                kernel,
                color,
                a.0 as int,
                a.1 as int,
                b.0 as int,
                b.1 as int,
                steps,
            );
            let c2 = image.as_map();
            let d2 = self.diff();
            assert(c2.dom() =~= c0.dom());
            if old(self).stroke_inv(*old(image)) {
                assert forall|k: (int, int)| #[trigger] d2.dom().contains(k) implies
                    self.base@.dom().contains(k) && d2[k] == self.base@[k] by {
                    if d0.dom().contains(k) {
                    } else {
                        assert(c0.dom().contains(k) && d2[k] == c0[k]);
                        assert(c0[k] == self.base@[k]);
                    }
                }
                assert forall|k: (int, int)|
                    self.base@.dom().contains(k) && !d2.dom().contains(k) implies #[trigger] c2[k]
                    == self.base@[k] by {
                    assert(!d0.dom().contains(k));
                    assert(c2[k] == c0[k]);
                    assert(c0[k] == self.base@[k]);
                }
            }
        }
    }

    /// Add the final point of the drag gesture: one last segment walk,
    /// then the gesture is finished.
    pub fn finish(&mut self, image: &mut Image, image_view: &ImageView, off_x: i64, off_y: i64)
        requires
            old(self).wf(),
            old(self).state == DragState::Active,
            old(image).wf(),
            old(self).handler.undo_pixels.fits(
                old(image).width as int,
                old(image).height as int,
            ),
            image_view.wf(),
            -COORD_LIMIT <= off_x <= COORD_LIMIT,
            -COORD_LIMIT <= off_y <= COORD_LIMIT,
        ensures
            final(self).wf(),
            final(self).state == DragState::Finished,
            final(image).wf(),
            final(self).handler.undo_pixels.fits(
                old(image).width as int,
                old(image).height as int,
            ),
            old(self).stroke_inv(*old(image)) ==> final(self).stroke_inv(*final(image)),
            final(image).width == old(image).width,
            final(image).height == old(image).height,
            final(self).base == old(self).base,
            final(self).handler.brush == old(self).handler.brush,
            final(self).handler.color == old(self).handler.color,
            ({
                let a = old(self).seg_endpoint(
                    *image_view,
                    old(self).points@.last().0 as int,
                    old(self).points@.last().1 as int,
                );
                let b = old(self).seg_endpoint(*image_view, off_x as int, off_y as int);
                let walked = walk_full(
                    old(image).as_map(),
                    old(self).diff(),
                    old(self).handler.brush.kernel@,
                    old(self).handler.color,
                    a.0,
                    a.1,
                    b.0,
                    b.1,
                );
                final(image).as_map() == walked.0 && final(self).diff() == walked.1
            }),
    {
        self.update(image, image_view, off_x, off_y);
        self.state = DragState::Finished;
    }

    /// Convert the finished gesture to an undoable/redoable operation:
    /// nothing where no pixel was ever touched (a fully transparent brush
    /// or a drag entirely off the canvas), the diff verbatim otherwise.
    pub fn to_op(self) -> (out: Option<PixelOp>)
        requires
            self.wf(),
            self.state == DragState::Finished,
        ensures
            match out {
                Some(op) => self.diff() != Map::<(int, int), Pixel>::empty() && op.as_map()
                    == self.diff() && op.undo_pixels.entries@
                    == self.handler.undo_pixels.entries@ && op.wf(),
                None => self.diff() == Map::<(int, int), Pixel>::empty(),
            },
    {
        self.handler.to_op()
    }
}

/// Law: over a whole stroke, the diff map holds, for every coordinate it
/// records, exactly the pixel value the canvas had when the stroke began
/// — never an intermediate value. (That each coordinate is recorded at
/// most once is the shape of `DiffMap` itself: its keys are pairwise
/// distinct.)
pub proof fn lemma_stroke_diff_is_prestroke(drag: DragInput, image: Image)
    requires
        drag.stroke_inv(image),
    ensures
        forall|k: (int, int)|
            #[trigger] drag.diff().dom().contains(k) ==> drag.diff()[k] == drag.base@[k],
{
}

/// Law: a stroke that never touched a canvas pixel — its diff map is
/// empty, as after a drag entirely outside the canvas — leaves every
/// canvas pixel exactly as it stood when the stroke began.
pub proof fn lemma_empty_stroke_leaves_canvas(drag: DragInput, image: Image)
    requires
        drag.stroke_inv(image),
        drag.diff() == Map::<(int, int), Pixel>::empty(),
    ensures
        image.as_map() == drag.base@,
{
    assert(image.as_map() =~= drag.base@);
}

/// A stamp whose every target misses the canvas changes nothing and
/// records nothing.
proof fn lemma_stamp_misses(
    canvas: Map<(int, int), Pixel>,
    diff: Map<(int, int), Pixel>,
    kernel: Seq<StampPoint>,
    color: Pixel,
    cx: int,
    cy: int,
    n: int,
)
    requires
        forall|j: int|
            0 <= j < n ==> !canvas.dom().contains(
                ((cx + (#[trigger] kernel[j]).dx, cy + kernel[j].dy)),
            ),
    ensures
        stamp_upto(canvas, diff, kernel, color, cx, cy, n) == (canvas, diff),
    decreases n,
{
    if n > 0 {
        lemma_stamp_misses(canvas, diff, kernel, color, cx, cy, n - 1);
    }
}

/// Law: a segment walk whose every stamp target misses the canvas — a
/// drag entirely outside the canvas bounds — changes nothing and records
/// nothing, so the stroke yields no operation.
pub proof fn lemma_walk_misses_canvas(
    canvas: Map<(int, int), Pixel>,
    diff: Map<(int, int), Pixel>,
    kernel: Seq<StampPoint>,
    color: Pixel,
    ax: int,
    ay: int,
    bx: int,
    by: int,
    n: int,
)
    requires
        forall|i: int, j: int|
            0 <= i < n && 0 <= j < kernel.len() ==> !canvas.dom().contains(
                (
                    (
                        tdiv(walk_point(ax, ay, bx, by, i).0, 1000) + (#[trigger] kernel[j]).dx,
                        tdiv((#[trigger] walk_point(ax, ay, bx, by, i)).1, 1000) + kernel[j].dy,
                    )
                ),
            ),
    ensures
        walk_upto(canvas, diff, kernel, color, ax, ay, bx, by, n) == (canvas, diff),
    decreases n,
{
    if n > 0 {
        lemma_walk_misses_canvas(canvas, diff, kernel, color, ax, ay, bx, by, n - 1);
        let p = walk_point(ax, ay, bx, by, n - 1);
        lemma_stamp_misses(
            canvas,
            diff,
            kernel,
            color,
            tdiv(p.0, 1000),
            tdiv(p.1, 1000),
            kernel.len() as int,
        );
    }
}

/// Law: a segment whose endpoints coincide is walked as exactly one step,
/// so the brush is stamped exactly once, at that point.
pub proof fn lemma_zero_length_segment(
    canvas: Map<(int, int), Pixel>,
    diff: Map<(int, int), Pixel>,
    kernel: Seq<StampPoint>,
    color: Pixel,
    ax: int,
    ay: int,
)
    ensures
        seg_steps(ax, ay, ax, ay) == 1,
        walk_full(canvas, diff, kernel, color, ax, ay, ax, ay) == stamp_full(
            canvas,
            diff,
            kernel,
            color,
            tdiv(ax, 1000),
            tdiv(ay, 1000),
        ),
{
    assert(seg_len2(ax, ay, ax, ay) == 0);
    assert(seg_steps(ax, ay, ax, ay) == 1);
    assert(walk_point(ax, ay, ax, ay, 0) == (ax, ay));
    assert(walk_upto(canvas, diff, kernel, color, ax, ay, ax, ay, 0) == (canvas, diff));
    assert(walk_upto(canvas, diff, kernel, color, ax, ay, ax, ay, 1) == stamp_full(
        canvas,
        diff,
        kernel,
        color,
        tdiv(ax, 1000),
        tdiv(ay, 1000),
    ));
}

/// The offset of walk step `i` along one axis: `i` steps of the segment
/// delta, divided by the segment length, truncated toward zero.
fn walk_offset(i: u64, delta: i64, l: u64) -> (out: i64)
    requires
        0 < l <= 2_000_000_000_000_000_000u64,
        (i as int) * 400 < l as int,
        -1_400_000_000_000_000_000 <= delta <= 1_400_000_000_000_000_000,
    ensures
        out == tdiv((i as int) * (PAINT_STEP_MILLI as int) * (delta as int), l as int),
        delta >= 0 ==> 0 <= out <= delta,
        delta < 0 ==> delta <= out <= 0,
{
    let step: i128 = (i as i128) * 400;
    proof {
        assert(step * (delta as int) <= 4_000_000_000_000_000_000_000_000_000_000_000_000int
            && -4_000_000_000_000_000_000_000_000_000_000_000_000int <= step * (delta as int))
            by (nonlinear_arith)
            requires
                0 <= step <= 2_000_000_000_000_000_000int,
                -1_400_000_000_000_000_000int <= delta as int <= 1_400_000_000_000_000_000int,
        ;
    }
    let num: i128 = step * (delta as i128);
    let q: i128 = tdiv_i128(num, l as i128);
    proof {
        let di = delta as int;
        let li = l as int;
        if delta >= 0 {
            assert(0 <= num && num <= li * di) by (nonlinear_arith)
                requires
                    num == step * di,
                    0 <= step < li,
                    0 <= di,
            ;
            lemma_div_is_ordered(num as int, li * di, li);
            lemma_div_multiples_vanish(di, li);
        } else {
            assert(num <= 0 && li * di <= num) by (nonlinear_arith)
                requires
                    num == step * di,
                    0 <= step < li,
                    di < 0,
            ;
            assert(-num <= li * -di) by (nonlinear_arith)
                requires
                    li * di <= num,
            ;
            lemma_div_is_ordered(-(num as int), li * -di, li);
            lemma_div_multiples_vanish(-di, li);
        }
    }
    q as i64
}

/// Truncate a sub-pixel coordinate (milli units) to an integer canvas
/// coordinate, toward zero.
fn trunc_milli(v: i64) -> (out: i64)
    requires
        -3_000_000_000_000_000_000 <= v <= 3_000_000_000_000_000_000,
    ensures
        out == tdiv(v as int, 1000),
        -CENTER_LIMIT <= out <= CENTER_LIMIT,
{
    let q: i128 = tdiv_i128(v as i128, 1000);
    proof {
        if v >= 0 {
            lemma_div_is_ordered(v as int, 3_000_000_000_000_000_000int, 1000);
        } else {
            lemma_div_is_ordered(-(v as int), 3_000_000_000_000_000_000int, 1000);
        }
    }
    q as i64
}

} // verus!
