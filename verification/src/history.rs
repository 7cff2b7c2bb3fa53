//! Bounded undo/redo history: two sequences of completed operations with
//! an aggressive batch-eviction policy.
use vstd::prelude::*;

use crate::diff::PixelOp;
use crate::diff::apply_diff;
use crate::diff::capture;
use crate::image::Image;

verus! {

/// What a sequence of operations becomes after the eviction check: a
/// sequence grown beyond its bound is truncated to exactly half the
/// bound (not to the bound itself), dropping the oldest entries first.
pub open spec fn evict_spec(s: Seq<PixelOp>, max: int) -> Seq<PixelOp> {
    if s.len() > max {
        s.skip(s.len() - max / 2)
    } else {
        s
    }
}

/// Two bounded sequences of completed operations: undone operations move
/// between them, and each is truncated to half its bound when it grows
/// past the bound.
pub struct History {
    /// Completed operations, oldest first.
    pub undo_buffer: Vec<PixelOp>,
    /// Undone operations, oldest first.
    pub redo_buffer: Vec<PixelOp>,
    /// Bound of the undo sequence.
    pub max_undo: usize,
    /// Bound of the redo sequence.
    pub max_redo: usize,
    /// Whether a fresh commit clears the redo sequence.
    pub clear_redo_on_commit: bool,
}

impl History {
    /// Both bounds are positive, both sequences are within their bounds,
    /// and every held operation is well-formed.
    pub open spec fn wf(self) -> bool {
        &&& self.max_undo >= 1
        &&& self.max_redo >= 1
        &&& self.undo_buffer@.len() <= self.max_undo
        &&& self.redo_buffer@.len() <= self.max_redo
        &&& forall|i: int|
            0 <= i < self.undo_buffer@.len() ==> (#[trigger] self.undo_buffer@[i]).wf()
        &&& forall|i: int|
            0 <= i < self.redo_buffer@.len() ==> (#[trigger] self.redo_buffer@[i]).wf()
    }

    /// Every held operation writes only coordinates of a canvas of the
    /// given dimensions.
    pub open spec fn fits_all(self, width: int, height: int) -> bool {
        &&& forall|i: int|
            0 <= i < self.undo_buffer@.len() ==> (#[trigger] self.undo_buffer@[i]).fits(
                width,
                height,
            )
        &&& forall|i: int|
            0 <= i < self.redo_buffer@.len() ==> (#[trigger] self.redo_buffer@[i]).fits(
                width,
                height,
            )
    }

    /// An empty history with the given bounds and redo-clearing policy.
    pub fn new(max_undo: usize, max_redo: usize, clear_redo_on_commit: bool) -> (out: History)
        requires
            max_undo >= 1,
            max_redo >= 1,
        ensures
            out.wf(),
            out.undo_buffer@.len() == 0,
            out.redo_buffer@.len() == 0,
            out.max_undo == max_undo,
            out.max_redo == max_redo,
            out.clear_redo_on_commit == clear_redo_on_commit,
            forall|w: int, h: int| out.fits_all(w, h),
    {
        History {
            undo_buffer: Vec::new(),
            redo_buffer: Vec::new(),
            max_undo,
            max_redo,
            clear_redo_on_commit,
        }
    }

    /// Commit a completed operation: push it onto the undo sequence,
    /// clear the redo sequence where the policy says so, and run the
    /// eviction check on both sequences.
    pub fn commit(&mut self, op: PixelOp)
        requires
            old(self).wf(),
            op.wf(),
        ensures
            final(self).wf(),
            final(self).max_undo == old(self).max_undo,
            final(self).max_redo == old(self).max_redo,
            final(self).clear_redo_on_commit == old(self).clear_redo_on_commit,
            final(self).undo_buffer@ == evict_spec(
                old(self).undo_buffer@.push(op),
                old(self).max_undo as int,
            ),
            final(self).redo_buffer@ == if old(self).clear_redo_on_commit {
                Seq::<PixelOp>::empty()
            } else {
                old(self).redo_buffer@
            },
            forall|w: int, h: int|
                old(self).fits_all(w, h) && op.fits(w, h) ==> final(self).fits_all(w, h),
    {
        self.undo_buffer.push(op);
        if self.clear_redo_on_commit {
            self.redo_buffer.clear();
        }
        evict_buf(&mut self.undo_buffer, self.max_undo);
        evict_buf(&mut self.redo_buffer, self.max_redo);
    }

    /// Undo the most recent operation: pop it, apply it to the image
    /// (inverting it in place), and push it onto the redo sequence, then
    /// run the eviction check. Returns false, changing nothing, when
    /// there is nothing to undo — a user-visible no-op, not an error.
    pub fn undo(&mut self, image: &mut Image) -> (did: bool)
        requires
            old(self).wf(),
            old(image).wf(),
            old(self).fits_all(old(image).width as int, old(image).height as int),
        ensures
            final(self).wf(),
            final(image).wf(),
            final(image).width == old(image).width,
            final(image).height == old(image).height,
            final(self).fits_all(old(image).width as int, old(image).height as int),
            final(self).max_undo == old(self).max_undo,
            final(self).max_redo == old(self).max_redo,
            final(self).clear_redo_on_commit == old(self).clear_redo_on_commit,
            did == (old(self).undo_buffer@.len() > 0),
            !did ==> final(self).undo_buffer@ == old(self).undo_buffer@
                && final(self).redo_buffer@ == old(self).redo_buffer@
                && *final(image) == *old(image),
            did ==> {
                let popped = old(self).undo_buffer@.last();
                &&& final(image).as_map() == apply_diff(old(image).as_map(), popped.as_map())
                &&& final(self).undo_buffer@ == old(self).undo_buffer@.drop_last()
                &&& exists|x: PixelOp|
                    x.wf() && (#[trigger] x.as_map()) == capture(
                        old(image).as_map(),
                        popped.as_map().dom(),
                    ) && final(self).redo_buffer@ == evict_spec(
                        old(self).redo_buffer@.push(x),
                        old(self).max_redo as int,
                    )
            },
    {
        match self.undo_buffer.pop() {
            None => false,
            Some(mut op) => {
                op.undo(image);
                let ghost witness = op;
                self.redo_buffer.push(op);
                evict_buf(&mut self.redo_buffer, self.max_redo);
                proof {
                    assert(witness.as_map() == capture(
                        old(image).as_map(),
                        old(self).undo_buffer@.last().as_map().dom(),
                    ));
                }
                true
            },
        }
    }

    /// Redo the most recently undone operation: pop it from the redo
    /// sequence, apply it to the image (inverting it in place), and push
    /// it back onto the undo sequence, then run the eviction check.
    /// Returns false, changing nothing, when there is nothing to redo.
    pub fn redo(&mut self, image: &mut Image) -> (did: bool)
        requires
            old(self).wf(),
            old(image).wf(),
            old(self).fits_all(old(image).width as int, old(image).height as int),
        ensures
            final(self).wf(),
            final(image).wf(),
            final(image).width == old(image).width,
            final(image).height == old(image).height,
            final(self).fits_all(old(image).width as int, old(image).height as int),
            final(self).max_undo == old(self).max_undo,
            final(self).max_redo == old(self).max_redo,
            final(self).clear_redo_on_commit == old(self).clear_redo_on_commit,
            did == (old(self).redo_buffer@.len() > 0),
            !did ==> final(self).undo_buffer@ == old(self).undo_buffer@
                && final(self).redo_buffer@ == old(self).redo_buffer@
                && *final(image) == *old(image),
            did ==> {
                let popped = old(self).redo_buffer@.last();
                &&& final(image).as_map() == apply_diff(old(image).as_map(), popped.as_map())
                &&& final(self).redo_buffer@ == old(self).redo_buffer@.drop_last()
                &&& exists|x: PixelOp|
                    x.wf() && (#[trigger] x.as_map()) == capture(
                        old(image).as_map(),
                        popped.as_map().dom(),
                    ) && final(self).undo_buffer@ == evict_spec(
                        old(self).undo_buffer@.push(x),
                        old(self).max_undo as int,
                    )
            },
    {
        match self.redo_buffer.pop() {
            None => false,
            Some(mut op) => {
                op.redo(image);
                let ghost witness = op;
                self.undo_buffer.push(op);
                evict_buf(&mut self.undo_buffer, self.max_undo);
                proof {
                    assert(witness.as_map() == capture(
                        old(image).as_map(),
                        old(self).redo_buffer@.last().as_map().dom(),
                    ));
                }
                true
            },
        }
    }
}

/// Run the eviction check on one sequence: a sequence grown beyond its
/// bound is truncated to exactly half the bound, dropping the oldest
/// entries first.
fn evict_buf(buf: &mut Vec<PixelOp>, max: usize)
    ensures
        final(buf)@ == evict_spec(old(buf)@, max as int),
{
    let len = buf.len();
    if len > max {
        let keep = max / 2;
        let drop_n = len - keep;
        let mut j: usize = 0;
        while j < drop_n
            invariant
                j <= drop_n,
                drop_n <= old(buf)@.len(),
                buf@ =~= old(buf)@.skip(j as int),
            decreases drop_n - j,
        {
            let _ = buf.remove(0);
            proof {
                assert(buf@ =~= old(buf)@.skip(j + 1));
            }
            j += 1;
        }
        proof {
            assert(buf@ =~= evict_spec(old(buf)@, max as int));
        }
    }
}

} // verus!
