//! A reference-counted slice that threads can share.

use crate::compare::cmp_outcome;
use crate::compare::cmp_seq;
use crate::compare::cmp_slices;
use crate::compare::eq_outcome;
use crate::compare::eq_seq;
use crate::compare::eq_slices;
use crate::compare::lemma_eq_reflexive;
use crate::compare::lemma_partial_cmp_reflexive;
use crate::compare::lemma_prefix_is_less;
use crate::compare::partial_cmp_outcome;
use crate::compare::partial_cmp_seq;
use crate::compare::partial_cmp_slices;
use crate::delegate::fmt_elements;
use crate::delegate::hash_elements;
use crate::window::Window;
use std::borrow::Borrow;
use std::cmp::Ordering;
use std::fmt::Debug;
use std::fmt::Formatter;
use std::hash::Hash;
use std::hash::Hasher;
use std::ops::Deref;
use std::sync::Arc;
use std::sync::Weak;
use vstd::prelude::*;
use vstd::slice::slice_subrange;
use vstd::std_specs::cmp::OrdSpec;
use vstd::std_specs::cmp::PartialEqSpec;
use vstd::std_specs::cmp::PartialOrdSpec;

verus! {

/// A reference-counted slice, counted atomically.
///
/// It is like `&[T]` without a lifetime: the block of elements lives until
/// the last `ArcSlice` that shares it is gone, in whichever thread that is.
/// The handles can be sent to and shared between threads where `T` can. A
/// handle shows a window of the block, which [`ArcSlice::slice`] narrows; what
/// it keeps alive is always the whole block, so a short slice of a long block
/// holds all of it in memory.
pub struct ArcSlice<T> {
    block: Arc<Vec<T>>,
    window: Window,
}

/// A reference-counted slice that does not keep its block alive.
///
/// It is to [`ArcSlice`] what `std::sync::Weak` is to `std::sync::Arc`. It
/// remembers a window and can be upgraded to an `ArcSlice` for as long as some
/// `ArcSlice` still shares the block.
#[verifier::reject_recursive_types(T)]
pub struct WeakSlice<T> {
    cell: WeakBlock<T>,
    window: Window,
}

/// A `std::sync::Weak` to a block. Verus cannot take the type itself, so it is
/// held here and nothing is known of it: which block it watches, and whether
/// that block is still alive, is the counting cell's own business.
#[verifier::external_body]
#[verifier::reject_recursive_types(T)]
struct WeakBlock<T> {
    cell: Weak<Vec<T>>,
}

/// Calls `Arc::clone`: one more share of the same block. The new `Arc` points
/// to the block that `block` points to, so to Verus, for which an `Arc` is
/// what it points to, the two are equal. (The call gives up only where the
/// count of handles on one block overflows.)
#[verifier::external_body]
fn share<T>(block: &Arc<Vec<T>>) -> (r: Arc<Vec<T>>)
    ensures
        r == block,
{
    Arc::clone(block)
}

/// Calls `Arc::downgrade`. Nothing is claimed of the weak pointer it returns.
/// (The call gives up only where the count of weak handles on one block
/// overflows.)
#[verifier::external_body]
fn watch<T>(block: &Arc<Vec<T>>) -> WeakBlock<T> {
    WeakBlock { cell: Arc::downgrade(block) }
}

/// Calls `Weak::upgrade`, which returns the block if a strong pointer to it is
/// left and `None` if not. Nothing is claimed of either: the answer depends
/// on what other handles have done. (The call gives up only where the count
/// of handles on one block overflows.)
#[verifier::external_body]
fn recall<T>(cell: &WeakBlock<T>) -> Option<Arc<Vec<T>>> {
    cell.cell.upgrade()
}

impl<T> View for ArcSlice<T> {
    type V = Seq<T>;

    /// The elements that the handle shows: its window of its block.
    open spec fn view(&self) -> Seq<T> {
        self.window().of(self.block())
    }
}

impl<T> ArcSlice<T> {
    /// The whole block that the handle shares and keeps alive.
    pub closed spec fn block(&self) -> Seq<T> {
        self.block@
    }

    /// The part of the block that the handle shows.
    pub closed spec fn window(&self) -> Window {
        self.window
    }

    /// The window is in order and lies inside the block. Every handle that
    /// executable code holds is well formed.
    #[verifier::type_invariant]
    pub closed spec fn wf(&self) -> bool {
        &&& self.window.wf()
        &&& self.window.fits(self.block@.len() as int)
    }

    /// A well-formed handle shows as many elements as its window is wide, all
    /// of them elements of the block.
    pub proof fn lemma_view(self)
        requires
            self.wf(),
        ensures
            self.window().wf(),
            self.window().fits(self.block().len() as int),
            self@.len() == self.window().size(),
            forall|i: int|
                0 <= i < self@.len() ==> #[trigger] self@[i] == self.block()[self.window().lo() + i],
    {
        Window::lemma_of(self.window, self.block@);
    }

    /// Construct a new `ArcSlice` containing the elements of `slice`.
    ///
    /// This reuses the allocation of `slice`.
    pub fn new(slice: Box<[T]>) -> (r: ArcSlice<T>)
        ensures
            r.wf(),
            r.block() == slice@,
            r.window().lo() == 0,
            r.window().hi() == slice@.len(),
            r@ == slice@,
    {
        let block = slice.into_vec();
        let window = Window::full(block.len());
        proof {
            assert(window.of(block@) =~= block@);
        }
        ArcSlice { block: Arc::new(block), window }
    }

    /// Downgrade self into a weak slice.
    pub fn downgrade(&self) -> (w: WeakSlice<T>)
        ensures
            w.window() == self.window(),
    {
        WeakSlice { cell: watch(&self.block), window: self.window }
    }

    /// Construct a new `ArcSlice` that only points to elements at
    /// indices `lo` (inclusive) through `hi` (exclusive).
    ///
    /// This consumes `self` to avoid unnecessary reference-count
    /// modifications. Use `.clone()` if it is necessary to refer to
    /// `self` after calling this.
    pub fn slice(self, lo: usize, hi: usize) -> (r: ArcSlice<T>)
        requires
            lo <= hi <= self@.len(),
        ensures
            r.wf(),
            r.block() == self.block(),
            r.window().narrows(self.window(), lo as int, hi as int),
            r@ == self@.subrange(lo as int, hi as int),
    {
        proof {
            use_type_invariant(&self);
            self.lemma_view();
        }
        let window = self.window.narrow(lo, hi);
        proof {
            Window::lemma_narrow_of(self.window, window, lo as int, hi as int, self.block@);
        }
        ArcSlice { block: self.block, window }
    }

    /// Construct a new `ArcSlice` that only points to elements at
    /// indices up to `hi` (exclusive).
    ///
    /// This consumes `self` to avoid unnecessary reference-count
    /// modifications. Use `.clone()` if it is necessary to refer to
    /// `self` after calling this.
    pub fn slice_to(self, hi: usize) -> (r: ArcSlice<T>)
        requires
            hi <= self@.len(),
        ensures
            r.wf(),
            r.block() == self.block(),
            r.window().narrows(self.window(), 0, hi as int),
            r@ == self@.subrange(0, hi as int),
    {
        self.slice(0, hi)
    }

    /// Construct a new `ArcSlice` that only points to elements at
    /// indices starting at  `lo` (inclusive).
    ///
    /// This consumes `self` to avoid unnecessary reference-count
    /// modifications. Use `.clone()` if it is necessary to refer to
    /// `self` after calling this.
    pub fn slice_from(self, lo: usize) -> (r: ArcSlice<T>)
        requires
            lo <= self@.len(),
        ensures
            r.wf(),
            r.block() == self.block(),
            r.window().narrows(self.window(), lo as int, self@.len() as int),
            r@ == self@.subrange(lo as int, self@.len() as int),
    {
        proof {
            use_type_invariant(&self);
            self.lemma_view();
        }
        let hi: usize = self.window.len();
        self.slice(lo, hi)
    }

    /// As [`ArcSlice::slice`], for bounds that are not known to be in range:
    /// `None` if `lo > hi` or if `hi` is beyond the shown elements, and the
    /// narrowed handle if not. The bounds are never clamped.
    pub fn try_slice(self, lo: usize, hi: usize) -> (r: Option<ArcSlice<T>>)
        ensures
            r is Some <==> lo <= hi <= self@.len(),
            r matches Some(s) ==> {
                &&& s.wf()
                &&& s.block() == self.block()
                &&& s.window().narrows(self.window(), lo as int, hi as int)
                &&& s@ == self@.subrange(lo as int, hi as int)
            },
    {
        proof {
            use_type_invariant(&self);
            self.lemma_view();
        }
        if lo <= hi && hi <= self.window.len() {
            Some(self.slice(lo, hi))
        } else {
            None
        }
    }

    /// Downgrading and upgrading again gives the handle back, as far as this
    /// library decides it: if `weak` has the window of `self`, and `back` is
    /// a handle with the window of `weak` on the block that `self` shares,
    /// then `back` shows what `self` shows. That an upgrade hands back that
    /// block is the counting cell's part and is not proved here.
    pub proof fn lemma_round_trip(self, weak: WeakSlice<T>, back: ArcSlice<T>)
        requires
            weak.window() == self.window(),
            back.window() == weak.window(),
            back.block() == self.block(),
        ensures
            back@ == self@,
    {
    }

    /// Narrowing twice is narrowing once: the second pair of bounds counts
    /// from the first lower bound.
    pub proof fn lemma_slice_twice(
        self,
        middle: ArcSlice<T>,
        inner: ArcSlice<T>,
        lo1: int,
        hi1: int,
        lo2: int,
        hi2: int,
    )
        requires
            self.wf(),
            0 <= lo1 <= hi1 <= self@.len(),
            0 <= lo2 <= hi2 <= hi1 - lo1,
            middle.block() == self.block(),
            middle.window().narrows(self.window(), lo1, hi1),
            inner.block() == middle.block(),
            inner.window().narrows(middle.window(), lo2, hi2),
        ensures
            inner.window().narrows(self.window(), lo1 + lo2, lo1 + hi2),
            inner@ == self@.subrange(lo1 + lo2, lo1 + hi2),
    {
        self.lemma_view();
        Window::lemma_narrow_twice(
            self.window,
            middle.window,
            inner.window,
            lo1,
            hi1,
            lo2,
            hi2,
        );
        Window::lemma_narrow_of(self.window, inner.window, lo1 + lo2, lo1 + hi2, self.block@);
    }
}

impl<T> Clone for ArcSlice<T> {
    /// One more handle on the same block, with the same window. The elements
    /// are not copied.
    fn clone(&self) -> (r: ArcSlice<T>)
        ensures
            r == *self,
            r.wf(),
    {
        proof {
            use_type_invariant(self);
        }
        ArcSlice { block: share(&self.block), window: self.window }
    }
}

impl<T> Deref for ArcSlice<T> {
    type Target = [T];

    /// The elements that the handle shows, as a slice.
    fn deref(&self) -> (r: &[T])
        ensures
            r@ == self@,
    {
        proof {
            use_type_invariant(self);
            use_type_invariant(&self.window);
        }
        slice_subrange(self.block.as_slice(), self.window.start(), self.window.end())
    }
}

impl<T> Borrow<[T]> for ArcSlice<T> {
    /// The elements that the handle shows, as a slice.
    fn borrow(&self) -> (r: &[T])
        ensures
            <[T] as View>::view(r) == self@,
    {
        self.deref()
    }
}

impl<T: PartialEq> vstd::std_specs::cmp::PartialEqSpecImpl for ArcSlice<T> {
    open spec fn obeys_eq_spec() -> bool {
        T::obeys_eq_spec()
    }

    open spec fn eq_spec(&self, other: &ArcSlice<T>) -> bool {
        eq_seq(self@, other@)
    }
}

impl<T: PartialEq> PartialEq for ArcSlice<T> {
    /// Whether the two handles show equal elements.
    fn eq(&self, other: &ArcSlice<T>) -> (r: bool)
        ensures
            eq_outcome(self@, other@, r),
    {
        eq_slices(self.deref(), other.deref())
    }

    /// Whether the two handles show unequal elements.
    fn ne(&self, other: &ArcSlice<T>) -> (r: bool)
        ensures
            eq_outcome(self@, other@, !r),
    {
        !eq_slices(self.deref(), other.deref())
    }
}

impl<T: Eq> Eq for ArcSlice<T> {
}

impl<T: PartialOrd> vstd::std_specs::cmp::PartialOrdSpecImpl for ArcSlice<T> {
    open spec fn obeys_partial_cmp_spec() -> bool {
        T::obeys_partial_cmp_spec()
    }

    open spec fn partial_cmp_spec(&self, other: &ArcSlice<T>) -> Option<Ordering> {
        partial_cmp_seq(self@, other@)
    }
}

impl<T: PartialOrd> PartialOrd for ArcSlice<T> {
    /// The lexicographic order of what the two handles show.
    fn partial_cmp(&self, other: &ArcSlice<T>) -> (r: Option<Ordering>)
        ensures
            partial_cmp_outcome(self@, other@, r),
    {
        partial_cmp_slices(self.deref(), other.deref())
    }

    fn lt(&self, other: &ArcSlice<T>) -> (r: bool)
        ensures
            exists|o: Option<Ordering>|
                #[trigger] partial_cmp_outcome(self@, other@, o) && r == (o == Some(Ordering::Less)),
    {
        let o = partial_cmp_slices(self.deref(), other.deref());
        matches!(o, Some(Ordering::Less))
    }

    fn le(&self, other: &ArcSlice<T>) -> (r: bool)
        ensures
            exists|o: Option<Ordering>|
                #[trigger] partial_cmp_outcome(self@, other@, o) && r == (o == Some(Ordering::Less)
                    || o == Some(Ordering::Equal)),
    {
        let o = partial_cmp_slices(self.deref(), other.deref());
        matches!(o, Some(Ordering::Less | Ordering::Equal))
    }

    fn gt(&self, other: &ArcSlice<T>) -> (r: bool)
        ensures
            exists|o: Option<Ordering>|
                #[trigger] partial_cmp_outcome(self@, other@, o) && r == (o == Some(
                    Ordering::Greater,
                )),
    {
        let o = partial_cmp_slices(self.deref(), other.deref());
        matches!(o, Some(Ordering::Greater))
    }

    fn ge(&self, other: &ArcSlice<T>) -> (r: bool)
        ensures
            exists|o: Option<Ordering>|
                #[trigger] partial_cmp_outcome(self@, other@, o) && r == (o == Some(
                    Ordering::Greater,
                ) || o == Some(Ordering::Equal)),
    {
        let o = partial_cmp_slices(self.deref(), other.deref());
        matches!(o, Some(Ordering::Greater | Ordering::Equal))
    }
}

impl<T: PartialOrd> ArcSlice<T> {
    /// Equality and order go by what the handles show, not by which block
    /// they share or where in it their windows lie: handles that show the
    /// same elements compare alike with every other handle.
    pub proof fn lemma_compared_by_contents(
        a: ArcSlice<T>,
        b: ArcSlice<T>,
        c: ArcSlice<T>,
        d: ArcSlice<T>,
    )
        requires
            a@ == c@,
            b@ == d@,
        ensures
            a.eq_spec(&b) == c.eq_spec(&d),
            a.partial_cmp_spec(&b) == c.partial_cmp_spec(&d),
    {
    }

    /// Two handles that show the same elements are equal and compare `Equal`,
    /// whether or not they share a block, if each element is equal to itself
    /// and compares `Equal` to itself. (A floating-point NaN does neither.)
    pub proof fn lemma_same_contents_are_equal(a: ArcSlice<T>, b: ArcSlice<T>)
        requires
            a@ == b@,
            forall|i: int| 0 <= i < a@.len() ==> #[trigger] a@[i].eq_spec(&a@[i]),
            forall|i: int|
                0 <= i < a@.len() ==> #[trigger] a@[i].partial_cmp_spec(&a@[i]) == Some(
                    Ordering::Equal,
                ),
        ensures
            a.eq_spec(&b),
            a.partial_cmp_spec(&b) == Some(Ordering::Equal),
    {
        lemma_eq_reflexive(a@);
        lemma_partial_cmp_reflexive(a@);
    }

    /// A handle narrowed to a proper prefix of what another shows is `Less`
    /// than the other, if each element of the prefix compares `Equal` to
    /// itself.
    pub proof fn lemma_narrowed_prefix_is_less(whole: ArcSlice<T>, prefix: ArcSlice<T>, hi: int)
        requires
            0 <= hi < whole@.len(),
            prefix@ == whole@.subrange(0, hi),
            forall|i: int|
                0 <= i < hi ==> #[trigger] whole@[i].partial_cmp_spec(&whole@[i]) == Some(
                    Ordering::Equal,
                ),
        ensures
            prefix.partial_cmp_spec(&whole) == Some(Ordering::Less),
            whole.partial_cmp_spec(&prefix) == Some(Ordering::Greater),
    {
        assert forall|i: int| 0 <= i < prefix@.len() implies #[trigger] prefix@[i].partial_cmp_spec(
            &prefix@[i],
        ) == Some(Ordering::Equal) by {
            assert(prefix@[i] == whole@[i]);
            assert(whole@[i].partial_cmp_spec(&whole@[i]) == Some(Ordering::Equal));
        }
        lemma_prefix_is_less(prefix@, whole@);
    }
}

impl<T: Ord> ArcSlice<T> {
    /// The lexicographic order of what the two handles show, for elements
    /// with a total order.
    pub fn cmp(&self, other: &ArcSlice<T>) -> (r: Ordering)
        ensures
            cmp_outcome(self@, other@, r),
            T::obeys_cmp_spec() ==> r == cmp_seq(self@, other@),
    {
        cmp_slices(self.deref(), other.deref())
    }
}

impl<T: Hash> Hash for ArcSlice<T> {
    /// Feeds the hasher what the slice of the shown elements feeds it.
    fn hash<H: Hasher>(&self, state: &mut H) {
        hash_elements(self.deref(), state)
    }
}

impl<T: Debug> Debug for ArcSlice<T> {
    /// Writes the shown elements as the slice of them is written.
    fn fmt(&self, f: &mut Formatter<'_>) -> std::fmt::Result {
        fmt_elements(self.deref(), f)
    }
}

impl<T> WeakSlice<T> {
    /// The window that an upgraded handle will show.
    pub closed spec fn window(&self) -> Window {
        self.window
    }

    /// Attempt to upgrade `self` to a strongly-counted `ArcSlice`.
    ///
    /// Returns `None` if this is not possible (the data has already
    /// been freed). Whether it has is for the counting cell to say; a handle
    /// that comes back shows the window of `self`.
    pub fn upgrade(&self) -> (r: Option<ArcSlice<T>>)
        ensures
            r matches Some(s) ==> s.wf() && s.window() == self.window(),
    {
        self.restore(recall(&self.cell))
    }

    /// The strong handle that an upgrade makes of what the counting cell
    /// answered: none if the block is gone, else a handle on `block` with the
    /// window of `self`. A block too short for the window gives none.
    pub fn restore(&self, block: Option<Arc<Vec<T>>>) -> (r: Option<ArcSlice<T>>)
        ensures
            match block {
                Some(b) if self.window().fits(b@.len() as int) => {
                    &&& r matches Some(s)
                    &&& s.wf()
                    &&& s.block() == b@
                    &&& s.window() == self.window()
                },
                _ => r is None,
            },
    {
        proof {
            use_type_invariant(&self.window);
        }
        match block {
            Some(b) => {
                if self.window.end() <= b.len() {
                    Some(ArcSlice { block: b, window: self.window })
                } else {
                    None
                }
            },
            None => None,
        }
    }
}

} // verus!
