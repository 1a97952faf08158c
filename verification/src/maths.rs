//! Small arithmetic helpers of the pool.
use crate::biguint::BigUint;
use crate::StablePool;
use vstd::prelude::*;

verus! {

/// `|x - y|` on natural numbers.
pub open spec fn spec_abs_diff(x: nat, y: nat) -> nat {
    if x >= y {
        (x - y) as nat
    } else {
        (y - x) as nat
    }
}

/// Arithmetic helpers.
pub trait MathsModule {
    /// The distance between two amounts.
    fn abs_diff(&self, x: &BigUint, y: &BigUint) -> BigUint;
}

impl MathsModule for StablePool {
    fn abs_diff(&self, x: &BigUint, y: &BigUint) -> (r: BigUint)
        ensures
            r@ == spec_abs_diff(x@, y@),
    {
        if !x.less_than(y) {
            x.minus(y)
        } else {
            y.minus(x)
        }
    }
}

} // verus!
