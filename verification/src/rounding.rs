//! Rounding to single precision, as scaling and brightness are computed with it.

use vstd::prelude::*;

verus! {

/// The whole number `k`, counted in units of which `one` make up one.
pub open spec fn whole(k: int, one: int) -> int {
    k * one
}

pub open spec fn magnitude(x: int) -> int {
    if x < 0 {
        -x
    } else {
        x
    }
}

/// Whether `round` rounds numbers, counted in units of which `one` make up one, as single precision
/// does: it keeps their order and the whole numbers of 24 binary digits, and is off by no more than
/// one part in two to the 24th. Where `one` is two to the 149th, every finite number of single
/// precision is a whole count of units.
pub open spec fn is_rounding(round: spec_fn(int) -> int, one: int) -> bool {
    &&& one > 0
    &&& forall|a: int, b: int| #![trigger round(a), round(b)] a <= b ==> round(a) <= round(b)
    &&& forall|k: int|
        -0x100_0000 <= k <= 0x100_0000 ==> #[trigger] round(whole(k, one)) == whole(k, one)
    &&& forall|x: int|
        #![trigger round(x)]
        -magnitude(x) <= (round(x) - x) * 0x100_0000 <= magnitude(x)
}

/// Numbers that need no rounding at all are such a case.
pub proof fn exact_numbers_are_rounded(one: int)
    requires
        one > 0,
    ensures
        is_rounding(|x: int| x, one),
{
}

} // verus!
