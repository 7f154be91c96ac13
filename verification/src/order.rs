//! What the library asks of a scalar's comparison, and the words in which
//! it speaks of it.

use vstd::prelude::*;
use vstd::std_specs::cmp::PartialOrdSpec;
use core::cmp::Ordering;

verus! {

/// The comparison of `T` answers what `partial_cmp_spec` says of it.
pub open spec fn comparable<T: PartialOrd>() -> bool {
    T::obeys_partial_cmp_spec()
}

/// `a` is strictly less than `b`.
pub open spec fn less<T: PartialOrd>(a: T, b: T) -> bool {
    a.partial_cmp_spec(&b) == Some(Ordering::Less)
}

/// `a` is strictly greater than `b`.
pub open spec fn greater<T: PartialOrd>(a: T, b: T) -> bool {
    a.partial_cmp_spec(&b) == Some(Ordering::Greater)
}

/// `less` orders `T` as numbers are ordered: nothing is less than itself,
/// less than less is less, and whatever is less than one value is less than
/// every value that is not less than that one.
pub open spec fn strict_weak_order<T: PartialOrd>() -> bool {
    &&& forall|a: T| !#[trigger] less(a, a)
    &&& forall|a: T, b: T, c: T|
        #[trigger] less(a, b) && #[trigger] less(b, c) ==> less(a, c)
    &&& forall|a: T, b: T, c: T|
        #[trigger] less(a, b) && !#[trigger] less(c, b) ==> less(a, c)
}

/// Signed integers are ordered so, and `less` is their `<`.
pub proof fn lemma_i64_strict_weak_order()
    ensures
        comparable::<i64>(),
        strict_weak_order::<i64>(),
        forall|a: i64, b: i64| less(a, b) <==> a < b,
{
}

} // verus!
