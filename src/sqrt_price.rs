//! A square-root price as a Q64.64 fixed-point number.
use vstd::prelude::*;

verus! {

/// sqrt(price of token A in token B), scaled by 2^64.
#[derive(Clone, Copy, Debug, PartialEq, Eq, Structural)]
pub struct SqrtPrice {
    pub fixed_point: u128,
}

impl SqrtPrice {
    pub fn new(sqrt_price: u128) -> (r: SqrtPrice)
        ensures
            r.fixed_point == sqrt_price,
    {
        SqrtPrice { fixed_point: sqrt_price }
    }
}

} // verus!
