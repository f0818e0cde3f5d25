//! Equality and lexicographic order of sequences, element by element.
//!
//! Two handles are compared by what they show, never by which block they
//! share or where their windows lie. This module holds the comparisons on the
//! shown contents; both flavours of handle use them.
//!
//! An element type decides with its own `==` and `partial_cmp`. For a type
//! whose comparisons are a function of the values (`obeys_eq_spec`,
//! `obeys_partial_cmp_spec`, `obeys_cmp_spec`), the result is pinned by the
//! spec functions below. For any other type (floating point, say) the
//! contracts still state which element comparisons the result rests on.

use std::cmp::Ordering;
use vstd::prelude::*;
use vstd::std_specs::cmp::OrdSpec;
use vstd::std_specs::cmp::PartialEqSpec;
use vstd::std_specs::cmp::PartialOrdSpec;

verus! {

/// Sequences are equal when they are as long as each other and equal at each
/// index, by the element type's `==`.
pub open spec fn eq_seq<T: PartialEq>(a: Seq<T>, b: Seq<T>) -> bool {
    &&& a.len() == b.len()
    &&& forall|i: int| 0 <= i < a.len() ==> #[trigger] a[i].eq_spec(&b[i])
}

/// The order of two lengths.
pub open spec fn len_order(n: nat, m: nat) -> Ordering {
    if n < m {
        Ordering::Less
    } else if n == m {
        Ordering::Equal
    } else {
        Ordering::Greater
    }
}

/// Lexicographic partial order: the first pair of elements that does not
/// compare `Equal` decides, also where it is unordered; if one sequence runs
/// out first, the lengths decide.
pub open spec fn partial_cmp_seq<T: PartialOrd>(a: Seq<T>, b: Seq<T>) -> Option<Ordering>
    decreases a.len(),
{
    if a.len() == 0 || b.len() == 0 {
        Some(len_order(a.len(), b.len()))
    } else {
        match a[0].partial_cmp_spec(&b[0]) {
            Some(Ordering::Equal) => partial_cmp_seq(a.drop_first(), b.drop_first()),
            o => o,
        }
    }
}

/// Lexicographic total order, as [`partial_cmp_seq`] with the element type's
/// `cmp`.
pub open spec fn cmp_seq<T: Ord>(a: Seq<T>, b: Seq<T>) -> Ordering
    decreases a.len(),
{
    if a.len() == 0 || b.len() == 0 {
        len_order(a.len(), b.len())
    } else {
        match a[0].cmp_spec(&b[0]) {
            Ordering::Equal => cmp_seq(a.drop_first(), b.drop_first()),
            o => o,
        }
    }
}

/// `r` is what comparing `a` with `b` for equality may give: `true` rests on
/// every pair having compared equal, `false` on unequal lengths or on one pair
/// having compared unequal. Here a pair "compares" as a call of the element
/// type's `==` may return, whatever that type is.
pub open spec fn eq_outcome<T: PartialEq>(a: Seq<T>, b: Seq<T>, r: bool) -> bool {
    if r {
        &&& a.len() == b.len()
        &&& forall|i: int| 0 <= i < a.len() ==> #[trigger] call_ensures(T::eq, (&a[i], &b[i]), true)
    } else {
        ||| a.len() != b.len()
        ||| exists|i: int| 0 <= i < a.len() && #[trigger] call_ensures(T::eq, (&a[i], &b[i]), false)
    }
}

/// The comparison of `a` with `b` may end at index `k` with `r`: all pairs
/// before `k` compared `Equal`; then either the pair at `k` gave `r`, which is
/// not `Equal`, or a sequence ended at `k` and `r` is the order of the lengths.
pub open spec fn partial_cmp_ends_at<T: PartialOrd>(
    a: Seq<T>,
    b: Seq<T>,
    k: int,
    r: Option<Ordering>,
) -> bool {
    &&& 0 <= k <= a.len()
    &&& k <= b.len()
    &&& forall|i: int|
        0 <= i < k ==> #[trigger] call_ensures(
            T::partial_cmp,
            (&a[i], &b[i]),
            Some(Ordering::Equal),
        )
    &&& if k < a.len() && k < b.len() {
        &&& r != Some(Ordering::Equal)
        &&& call_ensures(T::partial_cmp, (&a[k], &b[k]), r)
    } else {
        r == Some(len_order(a.len(), b.len()))
    }
}

/// `r` is what comparing `a` with `b` lexicographically may give, for any
/// element type.
pub open spec fn partial_cmp_outcome<T: PartialOrd>(
    a: Seq<T>,
    b: Seq<T>,
    r: Option<Ordering>,
) -> bool {
    exists|k: int| partial_cmp_ends_at(a, b, k, r)
}

/// As [`partial_cmp_ends_at`], for the total order.
pub open spec fn cmp_ends_at<T: Ord>(a: Seq<T>, b: Seq<T>, k: int, r: Ordering) -> bool {
    &&& 0 <= k <= a.len()
    &&& k <= b.len()
    &&& forall|i: int|
        0 <= i < k ==> #[trigger] call_ensures(T::cmp, (&a[i], &b[i]), Ordering::Equal)
    &&& if k < a.len() && k < b.len() {
        &&& r != Ordering::Equal
        &&& call_ensures(T::cmp, (&a[k], &b[k]), r)
    } else {
        r == len_order(a.len(), b.len())
    }
}

/// As [`partial_cmp_outcome`], for the total order.
pub open spec fn cmp_outcome<T: Ord>(a: Seq<T>, b: Seq<T>, r: Ordering) -> bool {
    exists|k: int| cmp_ends_at(a, b, k, r)
}

/// The first pair that does not compare `Equal` decides the partial order,
/// whatever it gives: `Less`, `Greater`, or no order at all.
pub proof fn lemma_first_difference_decides<T: PartialOrd>(a: Seq<T>, b: Seq<T>, k: int)
    requires
        0 <= k < a.len(),
        k < b.len(),
        forall|i: int| 0 <= i < k ==> #[trigger] a[i].partial_cmp_spec(&b[i]) == Some(Ordering::Equal),
        a[k].partial_cmp_spec(&b[k]) != Some(Ordering::Equal),
    ensures
        partial_cmp_seq(a, b) == a[k].partial_cmp_spec(&b[k]),
    decreases k,
{
    if k > 0 {
        let a1 = a.drop_first();
        let b1 = b.drop_first();
        assert(a[0].partial_cmp_spec(&b[0]) == Some(Ordering::Equal));
        assert forall|i: int| 0 <= i < k - 1 implies #[trigger] a1[i].partial_cmp_spec(&b1[i])
            == Some(Ordering::Equal) by {
            assert(a[i + 1].partial_cmp_spec(&b[i + 1]) == Some(Ordering::Equal));
        }
        lemma_first_difference_decides(a1, b1, k - 1);
    }
}

/// Where every pair compares `Equal` as far as both sequences reach, the
/// lengths decide the partial order: a proper prefix is `Less`, and sequences
/// of one length are `Equal`.
pub proof fn lemma_common_prefix_by_length<T: PartialOrd>(a: Seq<T>, b: Seq<T>)
    requires
        forall|i: int|
            0 <= i < a.len() && i < b.len() ==> #[trigger] a[i].partial_cmp_spec(&b[i]) == Some(
                Ordering::Equal,
            ),
    ensures
        partial_cmp_seq(a, b) == Some(len_order(a.len(), b.len())),
    decreases a.len(),
{
    if a.len() > 0 && b.len() > 0 {
        let a1 = a.drop_first();
        let b1 = b.drop_first();
        assert(a[0].partial_cmp_spec(&b[0]) == Some(Ordering::Equal));
        assert forall|i: int| 0 <= i < a1.len() && i < b1.len() implies #[trigger] a1[i].partial_cmp_spec(
            &b1[i],
        ) == Some(Ordering::Equal) by {
            assert(a[i + 1].partial_cmp_spec(&b[i + 1]) == Some(Ordering::Equal));
        }
        lemma_common_prefix_by_length(a1, b1);
    }
}

/// A sequence is equal to itself if each of its elements is equal to itself.
/// (A floating-point NaN is not.)
pub proof fn lemma_eq_reflexive<T: PartialEq>(a: Seq<T>)
    requires
        forall|i: int| 0 <= i < a.len() ==> #[trigger] a[i].eq_spec(&a[i]),
    ensures
        eq_seq(a, a),
{
}

/// A sequence compares `Equal` to itself if each of its elements does.
pub proof fn lemma_partial_cmp_reflexive<T: PartialOrd>(a: Seq<T>)
    requires
        forall|i: int|
            0 <= i < a.len() ==> #[trigger] a[i].partial_cmp_spec(&a[i]) == Some(Ordering::Equal),
    ensures
        partial_cmp_seq(a, a) == Some(Ordering::Equal),
{
    lemma_common_prefix_by_length(a, a);
}

/// A proper prefix of a sequence is `Less` than the sequence, if each element
/// of the prefix compares `Equal` to itself.
pub proof fn lemma_prefix_is_less<T: PartialOrd>(a: Seq<T>, b: Seq<T>)
    requires
        a.len() < b.len(),
        a.is_prefix_of(b),
        forall|i: int|
            0 <= i < a.len() ==> #[trigger] a[i].partial_cmp_spec(&a[i]) == Some(Ordering::Equal),
    ensures
        partial_cmp_seq(a, b) == Some(Ordering::Less),
        partial_cmp_seq(b, a) == Some(Ordering::Greater),
{
    assert forall|i: int| 0 <= i < a.len() && i < b.len() implies #[trigger] a[i].partial_cmp_spec(
        &b[i],
    ) == Some(Ordering::Equal) by {
        assert(a[i].partial_cmp_spec(&a[i]) == Some(Ordering::Equal));
        assert(a[i] == b[i]);
    }
    assert forall|i: int| 0 <= i < b.len() && i < a.len() implies #[trigger] b[i].partial_cmp_spec(
        &a[i],
    ) == Some(Ordering::Equal) by {
        assert(a[i].partial_cmp_spec(&a[i]) == Some(Ordering::Equal));
        assert(a[i] == b[i]);
    }
    lemma_common_prefix_by_length(a, b);
    lemma_common_prefix_by_length(b, a);
}

/// The first pair that does not compare `Equal` decides the total order.
pub proof fn lemma_first_difference_decides_total<T: Ord>(a: Seq<T>, b: Seq<T>, k: int)
    requires
        0 <= k < a.len(),
        k < b.len(),
        forall|i: int| 0 <= i < k ==> #[trigger] a[i].cmp_spec(&b[i]) == Ordering::Equal,
        a[k].cmp_spec(&b[k]) != Ordering::Equal,
    ensures
        cmp_seq(a, b) == a[k].cmp_spec(&b[k]),
    decreases k,
{
    if k > 0 {
        let a1 = a.drop_first();
        let b1 = b.drop_first();
        assert(a[0].cmp_spec(&b[0]) == Ordering::Equal);
        assert forall|i: int| 0 <= i < k - 1 implies #[trigger] a1[i].cmp_spec(&b1[i])
            == Ordering::Equal by {
            assert(a[i + 1].cmp_spec(&b[i + 1]) == Ordering::Equal);
        }
        lemma_first_difference_decides_total(a1, b1, k - 1);
    }
}

/// Where every pair compares `Equal` as far as both sequences reach, the
/// lengths decide the total order.
pub proof fn lemma_common_prefix_by_length_total<T: Ord>(a: Seq<T>, b: Seq<T>)
    requires
        forall|i: int|
            0 <= i < a.len() && i < b.len() ==> #[trigger] a[i].cmp_spec(&b[i]) == Ordering::Equal,
    ensures
        cmp_seq(a, b) == len_order(a.len(), b.len()),
    decreases a.len(),
{
    if a.len() > 0 && b.len() > 0 {
        let a1 = a.drop_first();
        let b1 = b.drop_first();
        assert(a[0].cmp_spec(&b[0]) == Ordering::Equal);
        assert forall|i: int| 0 <= i < a1.len() && i < b1.len() implies #[trigger] a1[i].cmp_spec(
            &b1[i],
        ) == Ordering::Equal by {
            assert(a[i + 1].cmp_spec(&b[i + 1]) == Ordering::Equal);
        }
        lemma_common_prefix_by_length_total(a1, b1);
    }
}

/// For an element type whose `==` is a function of the values, an outcome of
/// the comparison is the value of [`eq_seq`].
pub proof fn lemma_eq_outcome_is_spec<T: PartialEq>(a: Seq<T>, b: Seq<T>, r: bool)
    requires
        T::obeys_eq_spec(),
        eq_outcome(a, b, r),
    ensures
        r == eq_seq(a, b),
{
    if r {
        assert forall|i: int| 0 <= i < a.len() implies #[trigger] a[i].eq_spec(&b[i]) by {
            assert(call_ensures(T::eq, (&a[i], &b[i]), true));
        }
    } else if a.len() == b.len() {
        let i = choose|i: int| 0 <= i < a.len() && #[trigger] call_ensures(T::eq, (&a[i], &b[i]), false);
        assert(!a[i].eq_spec(&b[i]));
    }
}

/// For an element type whose `partial_cmp` is a function of the values, an
/// outcome of the comparison is the value of [`partial_cmp_seq`].
pub proof fn lemma_partial_cmp_outcome_is_spec<T: PartialOrd>(
    a: Seq<T>,
    b: Seq<T>,
    r: Option<Ordering>,
)
    requires
        T::obeys_partial_cmp_spec(),
        partial_cmp_outcome(a, b, r),
    ensures
        r == partial_cmp_seq(a, b),
{
    let k = choose|k: int| partial_cmp_ends_at(a, b, k, r);
    assert forall|i: int| 0 <= i < k implies #[trigger] a[i].partial_cmp_spec(&b[i]) == Some(
        Ordering::Equal,
    ) by {
        assert(call_ensures(T::partial_cmp, (&a[i], &b[i]), Some(Ordering::Equal)));
    }
    if k < a.len() && k < b.len() {
        lemma_first_difference_decides(a, b, k);
    } else {
        lemma_common_prefix_by_length(a, b);
    }
}

/// For an element type whose `cmp` is a function of the values, an outcome of
/// the comparison is the value of [`cmp_seq`].
pub proof fn lemma_cmp_outcome_is_spec<T: Ord>(a: Seq<T>, b: Seq<T>, r: Ordering)
    requires
        T::obeys_cmp_spec(),
        cmp_outcome(a, b, r),
    ensures
        r == cmp_seq(a, b),
{
    let k = choose|k: int| cmp_ends_at(a, b, k, r);
    assert forall|i: int| 0 <= i < k implies #[trigger] a[i].cmp_spec(&b[i]) == Ordering::Equal by {
        assert(call_ensures(T::cmp, (&a[i], &b[i]), Ordering::Equal));
    }
    if k < a.len() && k < b.len() {
        lemma_first_difference_decides_total(a, b, k);
    } else {
        lemma_common_prefix_by_length_total(a, b);
    }
}

/// Whether two slices are equal, element by element.
pub fn eq_slices<T: PartialEq>(a: &[T], b: &[T]) -> (r: bool)
    ensures
        eq_outcome(a@, b@, r),
        T::obeys_eq_spec() ==> r == eq_seq(a@, b@),
{
    if a.len() != b.len() {
        return false;
    }
    let mut i: usize = 0;
    while i < a.len()
        invariant
            a@.len() == b@.len(),
            i <= a@.len(),
            forall|j: int| 0 <= j < i ==> #[trigger] call_ensures(T::eq, (&a@[j], &b@[j]), true),
        decreases a@.len() - i,
    {
        if !(a[i] == b[i]) {
            proof {
                if T::obeys_eq_spec() {
                    lemma_eq_outcome_is_spec(a@, b@, false);
                }
            }
            return false;
        }
        i += 1;
    }
    proof {
        if T::obeys_eq_spec() {
            lemma_eq_outcome_is_spec(a@, b@, true);
        }
    }
    true
}

/// The order of the lengths of two slices.
pub fn order_of_lengths<T>(a: &[T], b: &[T]) -> (r: Ordering)
    ensures
        r == len_order(a@.len(), b@.len()),
{
    let n: usize = a.len();
    let m: usize = b.len();
    if n < m {
        Ordering::Less
    } else if n == m {
        Ordering::Equal
    } else {
        Ordering::Greater
    }
}

/// The lexicographic partial order of two slices.
pub fn partial_cmp_slices<T: PartialOrd>(a: &[T], b: &[T]) -> (r: Option<Ordering>)
    ensures
        partial_cmp_outcome(a@, b@, r),
        T::obeys_partial_cmp_spec() ==> r == partial_cmp_seq(a@, b@),
{
    let mut i: usize = 0;
    let ghost mut k: int = 0;
    while i < a.len() && i < b.len()
        invariant
            k == i,
            i <= a@.len(),
            i <= b@.len(),
            forall|j: int|
                0 <= j < i ==> #[trigger] call_ensures(
                    T::partial_cmp,
                    (&a@[j], &b@[j]),
                    Some(Ordering::Equal),
                ),
        decreases a@.len() - i,
    {
        let o = a[i].partial_cmp(&b[i]);
        match o {
            Some(Ordering::Equal) => {},
            _ => {
                proof {
                    assert(partial_cmp_ends_at(a@, b@, k, o));
                    if T::obeys_partial_cmp_spec() {
                        lemma_partial_cmp_outcome_is_spec(a@, b@, o);
                    }
                }
                return o;
            },
        }
        i += 1;
        proof {
            k = k + 1;
        }
    }
    let r = Some(order_of_lengths(a, b));
    proof {
        assert(partial_cmp_ends_at(a@, b@, k, r));
        if T::obeys_partial_cmp_spec() {
            lemma_partial_cmp_outcome_is_spec(a@, b@, r);
        }
    }
    r
}

/// The lexicographic total order of two slices.
pub fn cmp_slices<T: Ord>(a: &[T], b: &[T]) -> (r: Ordering)
    ensures
        cmp_outcome(a@, b@, r),
        T::obeys_cmp_spec() ==> r == cmp_seq(a@, b@),
{
    let mut i: usize = 0;
    let ghost mut k: int = 0;
    while i < a.len() && i < b.len()
        invariant
            k == i,
            i <= a@.len(),
            i <= b@.len(),
            forall|j: int|
                0 <= j < i ==> #[trigger] call_ensures(T::cmp, (&a@[j], &b@[j]), Ordering::Equal),
        decreases a@.len() - i,
    {
        let o = a[i].cmp(&b[i]);
        match o {
            Ordering::Equal => {},
            _ => {
                proof {
                    assert(cmp_ends_at(a@, b@, k, o));
                    if T::obeys_cmp_spec() {
                        lemma_cmp_outcome_is_spec(a@, b@, o);
                    }
                }
                return o;
            },
        }
        i += 1;
        proof {
            k = k + 1;
        }
    }
    let r = order_of_lengths(a, b);
    proof {
        assert(cmp_ends_at(a@, b@, k, r));
        if T::obeys_cmp_spec() {
            lemma_cmp_outcome_is_spec(a@, b@, r);
        }
    }
    r
}

} // verus!
