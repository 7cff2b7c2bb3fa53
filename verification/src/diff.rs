//! Invertible canvas mutations: the minimal pixel diff recorded by a
//! stroke, and the operation that applies it to the canvas while turning
//! itself into its own inverse.
use vstd::prelude::*;

use crate::image::Image;
use crate::pixel::Pixel;

verus! {

/// One recorded pixel: a canvas coordinate and the value that stood there
/// immediately before the stroke touched it.
#[derive(Clone, Copy, Debug, PartialEq, Eq, Structural)]
pub struct DiffEntry {
    pub x: u32,
    pub y: u32,
    pub pixel: Pixel,
}

/// The coordinate of a recorded pixel, as a mathematical pair.
pub open spec fn entry_key(e: DiffEntry) -> (int, int) {
    (e.x as int, e.y as int)
}

/// No two entries of the sequence record the same coordinate.
pub open spec fn distinct_keys(s: Seq<DiffEntry>) -> bool {
    forall|i: int, j: int|
        0 <= i < j < s.len() ==> entry_key(#[trigger] s[i]) != entry_key(#[trigger] s[j])
}

/// The sequence of entries read as a map from coordinate to pixel value.
pub open spec fn map_of(s: Seq<DiffEntry>) -> Map<(int, int), Pixel>
    decreases s.len(),
{
    if s.len() == 0 {
        Map::empty()
    } else {
        map_of(s.drop_last()).insert(entry_key(s.last()), s.last().pixel)
    }
}

/// With distinct keys, the map of a sequence holds exactly the entries:
/// every entry is in the map with its own pixel, and every key of the map
/// comes from some entry.
pub proof fn lemma_map_of_entries(s: Seq<DiffEntry>)
    requires
        distinct_keys(s),
    ensures
        forall|i: int|
            0 <= i < s.len() ==> map_of(s).dom().contains(entry_key(#[trigger] s[i])) && map_of(
                s,
            )[entry_key(s[i])] == s[i].pixel,
        forall|k: (int, int)|
            #[trigger] map_of(s).dom().contains(k) ==> exists|i: int|
                0 <= i < s.len() && entry_key(#[trigger] s[i]) == k,
    decreases s.len(),
{
    if s.len() > 0 {
        let prefix = s.drop_last();
        lemma_map_of_entries(prefix);
        assert forall|i: int|
            0 <= i < s.len() implies map_of(s).dom().contains(entry_key(#[trigger] s[i]))
            && map_of(s)[entry_key(s[i])] == s[i].pixel by {
            if i < s.len() - 1 {
                assert(prefix[i] == s[i]);
                assert(entry_key(s[i]) != entry_key(s[s.len() - 1]));
            }
        }
        assert forall|k: (int, int)| #[trigger] map_of(s).dom().contains(k) implies exists|i: int|
            0 <= i < s.len() && entry_key(#[trigger] s[i]) == k by {
            if k == entry_key(s.last()) {
                assert(entry_key(s[s.len() - 1]) == k);
            } else {
                assert(map_of(prefix).dom().contains(k));
                let i = choose|i: int|
                    0 <= i < prefix.len() && entry_key(#[trigger] prefix[i]) == k;
                assert(prefix[i] == s[i]);
                assert(entry_key(s[i]) == k);
            }
        }
    }
}

/// A map from canvas coordinate to the pixel value that stood there
/// before a stroke, held as a flat list with pairwise-distinct keys.
pub struct DiffMap {
    pub entries: Vec<DiffEntry>,
}

impl DiffMap {
    /// The recorded coordinates are pairwise distinct and the pixels are
    /// well-formed values.
    pub open spec fn wf(self) -> bool {
        &&& distinct_keys(self.entries@)
        &&& forall|i: int| 0 <= i < self.entries@.len() ==> (#[trigger] self.entries@[i]).pixel.wf()
    }

    /// The mathematical map this value stands for.
    pub open spec fn as_map(self) -> Map<(int, int), Pixel> {
        map_of(self.entries@)
    }

    /// Every recorded coordinate lies on a canvas of the given dimensions.
    pub open spec fn fits(self, width: int, height: int) -> bool {
        forall|i: int|
            0 <= i < self.entries@.len() ==> {
                let k = entry_key(#[trigger] self.entries@[i]);
                0 <= k.0 < width && 0 <= k.1 < height
            }
    }

    /// An empty diff map.
    pub fn new() -> (out: DiffMap)
        ensures
            out.wf(),
            out.as_map() == Map::<(int, int), Pixel>::empty(),
            out.entries@.len() == 0,
    {
        DiffMap { entries: Vec::new() }
    }

    /// Whether a value is recorded for the coordinate (x, y).
    pub fn contains(&self, x: u32, y: u32) -> (out: bool)
        ensures
            out == self.as_map().dom().contains((x as int, y as int)),
    {
        let ghost s = self.entries@;
        let n = self.entries.len();
        let mut i: usize = 0;
        while i < n
            invariant
                i <= n,
                n == s.len(),
                s == self.entries@,
                forall|j: int| 0 <= j < i ==> entry_key(#[trigger] s[j]) != (x as int, y as int),
            decreases n - i,
        {
            let e = self.entries[i];
            if e.x == x && e.y == y {
                proof {
                    lemma_map_of_contains_some(s, i as int);
                }
                return true;
            }
            i += 1;
        }
        proof {
            lemma_map_of_contains_none(s, (x as int, y as int));
        }
        false
    }

    /// Record a value for (x, y) only if none is recorded yet.
    pub fn insert_if_absent(&mut self, x: u32, y: u32, pixel: Pixel)
        requires
            old(self).wf(),
            pixel.wf(),
        ensures
            final(self).wf(),
            final(self).as_map() == if old(self).as_map().dom().contains((x as int, y as int)) {
                old(self).as_map()
            } else {
                old(self).as_map().insert((x as int, y as int), pixel)
            },
            final(self).entries@.len() == if old(self).as_map().dom().contains(
                (x as int, y as int),
            ) {
                old(self).entries@.len()
            } else {
                old(self).entries@.len() + 1
            },
            forall|i: int|
                0 <= i < old(self).entries@.len() ==> final(self).entries@[i] == old(
                    self,
                ).entries@[i],
            !old(self).as_map().dom().contains((x as int, y as int))
                ==> final(self).entries@[old(self).entries@.len() as int]
                == (DiffEntry { x, y, pixel }),
    {
        if !self.contains(x, y) {
            let ghost s = self.entries@;
            self.entries.push(DiffEntry { x, y, pixel });
            proof {
                assert(self.entries@.drop_last() =~= s);
                lemma_map_of_entries(s);
                assert forall|i: int, j: int|
                    0 <= i < j < self.entries@.len() implies entry_key(#[trigger] self.entries@[i])
                    != entry_key(#[trigger] self.entries@[j]) by {
                    if j == self.entries@.len() - 1 {
                        assert(map_of(s).dom().contains(entry_key(s[i])));
                    }
                }
            }
        }
    }

    /// The number of recorded coordinates.
    pub fn len(&self) -> (out: usize)
        ensures
            out == self.entries@.len(),
    {
        self.entries.len()
    }

    /// Whether nothing is recorded: true exactly when the map is empty.
    pub fn is_empty(&self) -> (out: bool)
        requires
            self.wf(),
        ensures
            out <==> self.as_map() == Map::<(int, int), Pixel>::empty(),
            out == (self.entries@.len() == 0),
    {
        let n = self.entries.len();
        proof {
            if n > 0 {
                lemma_map_of_entries(self.entries@);
                assert(self.as_map().dom().contains(entry_key(self.entries@[0])));
            } else {
                assert(self.as_map() =~= Map::<(int, int), Pixel>::empty());
            }
        }
        n == 0
    }
}

/// If entry `i` has key `k`, the map of the sequence contains `k`.
proof fn lemma_map_of_contains_some(s: Seq<DiffEntry>, i: int)
    requires
        0 <= i < s.len(),
    ensures
        map_of(s).dom().contains(entry_key(s[i])),
    decreases s.len(),
{
    if i < s.len() - 1 {
        lemma_map_of_contains_some(s.drop_last(), i);
        assert(s.drop_last()[i] == s[i]);
    }
}

/// If no entry has key `k`, the map of the sequence does not contain `k`.
proof fn lemma_map_of_contains_none(s: Seq<DiffEntry>, k: (int, int))
    requires
        forall|j: int| 0 <= j < s.len() ==> entry_key(#[trigger] s[j]) != k,
    ensures
        !map_of(s).dom().contains(k),
    decreases s.len(),
{
    if s.len() > 0 {
        lemma_map_of_contains_none(s.drop_last(), k);
    }
}

/// The canvas after writing every recorded pixel of `diff` over `canvas`:
/// recorded coordinates take the recorded value, all others keep theirs.
pub open spec fn apply_diff(
    canvas: Map<(int, int), Pixel>,
    diff: Map<(int, int), Pixel>,
) -> Map<(int, int), Pixel> {
    Map::new(
        |c: (int, int)| canvas.dom().contains(c),
        |c: (int, int)|
            if diff.dom().contains(c) {
                diff[c]
            } else {
                canvas[c]
            },
    )
}

/// The pixels of `canvas` at the coordinates of `keys`: the diff that
/// would restore `canvas` after those coordinates are overwritten.
pub open spec fn capture(
    canvas: Map<(int, int), Pixel>,
    keys: Set<(int, int)>,
) -> Map<(int, int), Pixel> {
    Map::new(|c: (int, int)| keys.contains(c), |c: (int, int)| canvas[c])
}

/// Applying a diff and then applying what was captured under it restores
/// the canvas exactly, pixel for pixel.
pub proof fn lemma_apply_diff_toggle(canvas: Map<(int, int), Pixel>, diff: Map<(int, int), Pixel>)
    requires
        diff.dom().subset_of(canvas.dom()),
    ensures
        apply_diff(apply_diff(canvas, diff), capture(canvas, diff.dom())) == canvas,
{
    assert(apply_diff(apply_diff(canvas, diff), capture(canvas, diff.dom())) =~= canvas);
}

/// An operation based on updating pixels in the image.
///
/// The same object serves for undo and for redo: each application swaps
/// the recorded pixels with the canvas's current ones, so it always holds
/// exactly what the next application must restore.
pub struct PixelOp {
    pub undo_pixels: DiffMap,
}

impl PixelOp {
    /// The recorded diff is well-formed.
    pub open spec fn wf(self) -> bool {
        self.undo_pixels.wf()
    }

    /// The diff this operation would write, as a mathematical map.
    pub open spec fn as_map(self) -> Map<(int, int), Pixel> {
        self.undo_pixels.as_map()
    }

    /// Every recorded coordinate lies on a canvas of the given dimensions.
    pub open spec fn fits(self, width: int, height: int) -> bool {
        self.undo_pixels.fits(width, height)
    }

    /// Wrap a finished diff map as an operation.
    pub fn new(undo_pixels: DiffMap) -> (out: PixelOp)
        ensures
            out.undo_pixels == undo_pixels,
    {
        PixelOp { undo_pixels }
    }

    /// Undo the operation: write every recorded pixel back to the image,
    /// and keep the overwritten values so that the next application
    /// reverses this one.
    pub fn undo(&mut self, image: &mut Image)
        requires
            old(self).wf(),
            old(image).wf(),
            old(self).fits(old(image).width as int, old(image).height as int),
        ensures
            final(image).wf(),
            final(image).width == old(image).width,
            final(image).height == old(image).height,
            final(image).as_map() == apply_diff(old(image).as_map(), old(self).as_map()),
            final(self).as_map() == capture(old(image).as_map(), old(self).as_map().dom()),
            final(self).wf(),
            final(self).fits(old(image).width as int, old(image).height as int),
    {
        let ghost s = self.undo_pixels.entries@;
        let ghost canvas0 = image.as_map();
        proof {
            lemma_map_of_entries(s);
        }
        let mut redo: Vec<DiffEntry> = Vec::new();
        let n = self.undo_pixels.entries.len();
        let mut i: usize = 0;
        while i < n
            invariant
                i <= n,
                n == s.len(),
                self.undo_pixels.entries@ == s,
                distinct_keys(s),
                forall|j: int| 0 <= j < s.len() ==> (#[trigger] s[j]).pixel.wf(),
                forall|j: int|
                    0 <= j < s.len() ==> {
                        let k = entry_key(#[trigger] s[j]);
                        0 <= k.0 < old(image).width && 0 <= k.1 < old(image).height
                    },
                image.wf(),
                image.width == old(image).width,
                image.height == old(image).height,
                canvas0 == old(image).as_map(),
                forall|x: int, y: int|
                    image.in_bounds(x, y) ==> #[trigger] image.at(x, y) == if exists|j: int|
                        0 <= j < i && entry_key(#[trigger] s[j]) == (x, y) {
                        map_of(s)[(x, y)]
                    } else {
                        old(image).at(x, y)
                    },
                redo@.len() == i,
                forall|j: int|
                    0 <= j < i ==> entry_key(#[trigger] redo@[j]) == entry_key(s[j])
                        && redo@[j].pixel == old(image).at(entry_key(s[j]).0, entry_key(s[j]).1),
            decreases n - i,
        {
            let e = self.undo_pixels.entries[i];
            proof {
                lemma_map_of_entries(s);
                if exists|j: int| 0 <= j < i && entry_key(#[trigger] s[j]) == entry_key(s[i as int]) {
                    let j = choose|j: int|
                        0 <= j < i && entry_key(#[trigger] s[j]) == entry_key(s[i as int]);
                    assert(false);
                }
            }
            let cur = *image.get(e.x, e.y);
            image.set(e.x, e.y, e.pixel);
            redo.push(DiffEntry { x: e.x, y: e.y, pixel: cur });
            proof {
                assert forall|x: int, y: int| image.in_bounds(x, y) implies #[trigger] image.at(
                    x,
                    y,
                ) == if exists|j: int| 0 <= j < i + 1 && entry_key(#[trigger] s[j]) == (x, y) {
                    map_of(s)[(x, y)]
                } else {
                    old(image).at(x, y)
                } by {
                    if (x, y) == entry_key(s[i as int]) {
                        assert(entry_key(s[i as int]) == (x, y));
                    } else {
                        if exists|j: int| 0 <= j < i + 1 && entry_key(#[trigger] s[j]) == (x, y) {
                            let j = choose|j: int|
                                0 <= j < i + 1 && entry_key(#[trigger] s[j]) == (x, y);
                            assert(0 <= j < i && entry_key(s[j]) == (x, y));
                        }
                    }
                }
            }
            i += 1;
        }
        self.undo_pixels.entries = redo;
        proof {
            lemma_map_of_entries(s);
            assert forall|i2: int, j2: int|
                0 <= i2 < j2 < redo@.len() implies entry_key(#[trigger] redo@[i2]) != entry_key(
                #[trigger] redo@[j2],
            ) by {
                assert(entry_key(s[i2]) != entry_key(s[j2]));
            }
            assert forall|j: int| 0 <= j < redo@.len() implies (#[trigger] redo@[j]).pixel.wf() by {
                let k = entry_key(s[j]);
                crate::image::lemma_image_at_wf(*old(image), k.0, k.1);
            }
            assert forall|j: int|
                0 <= j < redo@.len() implies {
                let k = entry_key(#[trigger] redo@[j]);
                0 <= k.0 < old(image).width && 0 <= k.1 < old(image).height
            } by {
                assert(entry_key(redo@[j]) == entry_key(s[j]));
            }
            lemma_map_of_entries(redo@);
            assert(image.as_map() =~= apply_diff(canvas0, map_of(s))) by {
                assert forall|c: (int, int)| #[trigger] canvas0.dom().contains(c) implies image.at(
                    c.0,
                    c.1,
                ) == apply_diff(canvas0, map_of(s))[c] by {
                    if map_of(s).dom().contains(c) {
                        let j = choose|j: int| 0 <= j < s.len() && entry_key(#[trigger] s[j]) == c;
                        assert(exists|j: int| 0 <= j < n && entry_key(#[trigger] s[j]) == (c.0, c.1));
                    } else {
                        if exists|j: int| 0 <= j < n && entry_key(#[trigger] s[j]) == (c.0, c.1) {
                            let j = choose|j: int|
                                0 <= j < n && entry_key(#[trigger] s[j]) == (c.0, c.1);
                            lemma_map_of_contains_some(s, j);
                            assert(false);
                        }
                    }
                }
            }
            assert(self.as_map() =~= capture(canvas0, map_of(s).dom())) by {
                assert forall|c: (int, int)|
                    #[trigger] map_of(s).dom().contains(c) implies map_of(redo@).dom().contains(c)
                    && map_of(redo@)[c] == canvas0[c] by {
                    let j = choose|j: int| 0 <= j < s.len() && entry_key(#[trigger] s[j]) == c;
                    assert(entry_key(redo@[j]) == c);
                    assert(map_of(redo@)[entry_key(redo@[j])] == redo@[j].pixel);
                }
                assert forall|c: (int, int)|
                    #[trigger] map_of(redo@).dom().contains(c) implies map_of(s).dom().contains(
                    c,
                ) by {
                    let j = choose|j: int|
                        0 <= j < redo@.len() && entry_key(#[trigger] redo@[j]) == c;
                    assert(entry_key(s[j]) == c);
                    lemma_map_of_contains_some(s, j);
                }
            }
        }
    }

    /// Redo the operation. The recorded pixels already are the redo
    /// values, so this is the same swap as `undo`.
    pub fn redo(&mut self, image: &mut Image)
        requires
            old(self).wf(),
            old(image).wf(),
            old(self).fits(old(image).width as int, old(image).height as int),
        ensures
            final(image).wf(),
            final(image).width == old(image).width,
            final(image).height == old(image).height,
            final(image).as_map() == apply_diff(old(image).as_map(), old(self).as_map()),
            final(self).as_map() == capture(old(image).as_map(), old(self).as_map().dom()),
            final(self).wf(),
            final(self).fits(old(image).width as int, old(image).height as int),
    {
        self.undo(image);
    }
}

} // verus!
