use vstd::prelude::*;
use vstd::std_specs::cmp::{PartialOrdIs, PartialOrdSpec};

verus! {

/// `l` where `less` holds, else `r`.
pub open spec fn lesser<T>(l: T, r: T, less: bool) -> T {
    if less {
        l
    } else {
        r
    }
}

/// `l` where `l < r` holds, else `r`.
pub open spec fn min_spec<T: PartialOrd>(l: T, r: T) -> T {
    lesser(l, r, l.is_lt(&r))
}

/// The smaller of two values by `<`. The right one is returned when the two
/// compare equal and when they are unordered.
///
/// The result is the left value exactly when `l < r` answered yes. For a
/// type whose `<` has a model, that answer is known and the result is
/// `min_spec(l, r)`.
pub fn min<T: PartialOrd>(l: T, r: T) -> (m: T)
    ensures
        exists|less: bool| #[trigger] call_ensures(T::lt, (&l, &r), less) && m == lesser(l, r, less),
        T::obeys_partial_cmp_spec() ==> m == min_spec(l, r),
{
    if l < r {
        l
    } else {
        r
    }
}

} // verus!
