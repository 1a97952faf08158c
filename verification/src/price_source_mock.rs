//! A stand-in for an on-chain source of exchange rates.
use crate::biguint::BigUint;
use vstd::prelude::*;

verus! {

/// The storage of the price source: one exchange rate.
pub struct PriceSourceMock {
    exchange_rate: BigUint,
}

impl View for PriceSourceMock {
    type V = nat;

    closed spec fn view(&self) -> nat {
        self.exchange_rate@
    }
}

/// A source of exchange rates with a single view.
pub trait UnderlyingPriceSourceMock: Sized {
    /// A new source; its rate is 0 until set.
    fn init() -> Self;

    /// The exchange rate.
    fn get_exchange_rate(&self) -> BigUint;

    /// Stores the exchange rate.
    fn set_exchange_rate(&mut self, rate: &BigUint);
}

impl UnderlyingPriceSourceMock for PriceSourceMock {
    fn init() -> (r: Self)
        ensures
            r@ == 0,
    {
        PriceSourceMock { exchange_rate: BigUint::from_u64(0) }
    }

    fn get_exchange_rate(&self) -> (r: BigUint)
        ensures
            r@ == self@,
    {
        self.exchange_rate.clone_value()
    }

    fn set_exchange_rate(&mut self, rate: &BigUint)
        ensures
            final(self)@ == rate@,
    {
        self.exchange_rate = rate.clone_value();
    }
}

} // verus!
