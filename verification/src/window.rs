//! The visible range of a shared slice.
//!
//! A handle owns a share of a whole block of elements but shows only a
//! contiguous part of it. The part is a [`Window`]: a pair of indices into the
//! block. Narrowing a handle moves the indices and never touches the block.

use vstd::prelude::*;

verus! {

/// A half-open range of indices `[lo, hi)` into a block of elements.
#[derive(Clone, Copy)]
pub struct Window {
    start: usize,
    end: usize,
}

impl Window {
    /// Index of the first visible element.
    pub closed spec fn lo(self) -> int {
        self.start as int
    }

    /// Index one past the last visible element.
    pub closed spec fn hi(self) -> int {
        self.end as int
    }

    /// The bounds are in order, and they are indices that a machine can hold.
    /// Every window that executable code holds is well formed.
    #[verifier::type_invariant]
    pub open spec fn wf(self) -> bool {
        0 <= self.lo() <= self.hi() <= usize::MAX
    }

    /// Number of visible elements.
    pub open spec fn size(self) -> int {
        self.hi() - self.lo()
    }

    /// Whether the window lies inside a block of `n` elements.
    pub open spec fn fits(self, n: int) -> bool {
        self.hi() <= n
    }

    /// The elements of `block` that the window shows.
    pub open spec fn of<T>(self, block: Seq<T>) -> Seq<T> {
        block.subrange(self.lo(), self.hi())
    }

    /// Whether `self` is `outer` narrowed to the offsets `[lo, hi)`, counted
    /// from the start of `outer`.
    pub open spec fn narrows(self, outer: Window, lo: int, hi: int) -> bool {
        &&& self.lo() == outer.lo() + lo
        &&& self.hi() == outer.lo() + hi
    }

    /// The window that shows all of a block of `len` elements.
    pub fn full(len: usize) -> (w: Window)
        ensures
            w.wf(),
            w.lo() == 0,
            w.hi() == len,
    {
        Window { start: 0, end: len }
    }

    /// Number of visible elements.
    pub fn len(&self) -> (n: usize)
        ensures
            n == self.size(),
    {
        proof {
            use_type_invariant(self);
        }
        self.end - self.start
    }

    /// Index of the first visible element.
    pub fn start(&self) -> (i: usize)
        ensures
            i == self.lo(),
    {
        self.start
    }

    /// Index one past the last visible element.
    pub fn end(&self) -> (i: usize)
        ensures
            i == self.hi(),
    {
        self.end
    }

    /// The sub-window `[lo, hi)` of this window; the offsets count from the
    /// start of this window, not from the start of the block.
    pub fn narrow(self, lo: usize, hi: usize) -> (w: Window)
        requires
            lo <= hi <= self.size(),
        ensures
            w.wf(),
            w.narrows(self, lo as int, hi as int),
    {
        proof {
            use_type_invariant(self);
        }
        Window { start: self.start + lo, end: self.start + hi }
    }

    /// A well-formed window that fits a block shows as many elements as its
    /// size, and its `i`-th element is the block's element at `lo + i`.
    pub proof fn lemma_of<T>(w: Window, block: Seq<T>)
        requires
            w.wf(),
            w.fits(block.len() as int),
        ensures
            0 <= w.lo() <= w.hi() <= block.len(),
            w.of(block).len() == w.size(),
            forall|i: int| 0 <= i < w.size() ==> #[trigger] w.of(block)[i] == block[w.lo() + i],
    {
    }

    /// Narrowing commutes with looking: what the narrowed window shows of a
    /// block is the sub-range `[lo, hi)` of what the outer window shows.
    pub proof fn lemma_narrow_of<T>(outer: Window, inner: Window, lo: int, hi: int, block: Seq<T>)
        requires
            outer.wf(),
            outer.fits(block.len() as int),
            0 <= lo <= hi <= outer.size(),
            inner.narrows(outer, lo, hi),
        ensures
            inner.fits(block.len() as int),
            inner.size() == hi - lo,
            inner.of(block) == outer.of(block).subrange(lo, hi),
    {
        assert(inner.of(block) =~= outer.of(block).subrange(lo, hi));
    }

    /// Narrowing twice is narrowing once, with the offsets added.
    pub proof fn lemma_narrow_twice(
        outer: Window,
        middle: Window,
        inner: Window,
        lo1: int,
        hi1: int,
        lo2: int,
        hi2: int,
    )
        requires
            middle.narrows(outer, lo1, hi1),
            inner.narrows(middle, lo2, hi2),
        ensures
            inner.narrows(outer, lo1 + lo2, lo1 + hi2),
    {
    }
}

} // verus!
