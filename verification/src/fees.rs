//! Swap and liquidity fees.
//!
//! Fees are expressed in millionths ("percent base points": `10000` is 1%).
//! A third (33%) of every swap fee goes to the platform; the rest stays in the
//! pool for the liquidity providers.
use crate::biguint::BigUint;
use crate::{receiver_view, StablePool};
use vstd::prelude::*;

verus! {

/// The fee denominator: fees are given in millionths.
pub open spec fn fee_denominator() -> nat {
    1_000_000
}

/// The fee charged on an imbalanced deposit or withdrawal of `amount`.
pub open spec fn spec_liquidity_fee(amount: nat, liquidity_fee: nat) -> nat {
    (amount * liquidity_fee) / fee_denominator()
}

/// The whole fee charged on a swap that pays out `amount`.
pub open spec fn spec_total_swap_fee(amount: nat, swap_fee: nat) -> nat {
    (amount * swap_fee) / fee_denominator()
}

/// The platform's share of a total swap fee: 33%, rounded down.
pub open spec fn spec_platform_fee(total_fee: nat) -> nat {
    (total_fee * 33) / 100
}

/// `(lp fee, platform fee)` of a swap that pays out `amount`.
pub open spec fn spec_swap_fee(amount: nat, swap_fee: nat) -> (nat, nat) {
    let total = spec_total_swap_fee(amount, swap_fee);
    ((total - spec_platform_fee(total)) as nat, spec_platform_fee(total))
}

/// The liquidity fee derived from a swap fee: `swap_fee * n / (4 (n - 1))`.
pub open spec fn spec_liquidity_fee_rate(swap_fee: nat, nb_tokens: nat) -> nat {
    (swap_fee * nb_tokens) / (4 * (nb_tokens - 1) as nat)
}

/// Fee computation and fee settings.
pub trait FeesModule {
    /// The imbalance fee on `amount`.
    fn calculate_liquidity_fee(&self, amount: &BigUint) -> BigUint;

    /// `(lp fee, platform fee)` on a swap that pays out `amount`.
    fn calculate_swap_fee(&self, amount: &BigUint) -> (BigUint, BigUint);

    /// Sets the account that receives the platform fees.
    fn do_configure_platform_fees_receiver(&mut self, receiver: &Vec<u8>);

    /// Sets the swap fee, and the liquidity fee derived from it.
    fn update_swap_fee(&mut self, nb_tokens: usize, swap_fee: u32)
        requires
            2 <= nb_tokens,
            swap_fee * nb_tokens <= u32::MAX,
            4 * (nb_tokens - 1) <= u32::MAX,
    ;

    /// The liquidity (imbalance) fee, in millionths.
    fn liquidity_fee(&self) -> u32;

    /// The account that receives the platform fees, if one is set.
    fn platform_fees_receiver(&self) -> Option<Vec<u8>>;

    /// The swap fee, in millionths.
    fn swap_fee(&self) -> u32;
}

impl FeesModule for StablePool {
    fn calculate_liquidity_fee(&self, amount: &BigUint) -> (r: BigUint)
        ensures
            r@ == spec_liquidity_fee(amount@, self@.liquidity_fee),
    {
        amount.times(&BigUint::from_u64(self.liquidity_fee as u64)).quotient(
            &BigUint::from_u64(1_000_000),
        )
    }

    fn calculate_swap_fee(&self, amount: &BigUint) -> (r: (BigUint, BigUint))
        ensures
            r.0@ == spec_swap_fee(amount@, self@.swap_fee).0,
            r.1@ == spec_swap_fee(amount@, self@.swap_fee).1,
    {
        let total_fee = amount.times(&BigUint::from_u64(self.swap_fee as u64)).quotient(
            &BigUint::from_u64(1_000_000),
        );
        let platform_fee = total_fee.times(&BigUint::from_u64(33)).quotient(
            &BigUint::from_u64(100),
        );
        (total_fee.minus(&platform_fee), platform_fee)
    }

    fn do_configure_platform_fees_receiver(&mut self, receiver: &Vec<u8>)
        ensures
            final(self)@ == old(self)@.with_fees_receiver(receiver@),
    {
        proof {
            use_type_invariant(&*self);
        }
        self.platform_fees_receiver = Some(receiver.clone());
    }

    fn update_swap_fee(&mut self, nb_tokens: usize, swap_fee: u32)
        ensures
            final(self)@ == old(self)@.with_fees(
                swap_fee as nat,
                spec_liquidity_fee_rate(swap_fee as nat, nb_tokens as nat),
            ),
    {
        proof {
            use_type_invariant(&*self);
        }
        let n = nb_tokens as u32;
        let liquidity_fee = (swap_fee * n) / (4u32 * (n - 1));
        self.swap_fee = swap_fee;
        self.liquidity_fee = liquidity_fee;
    }

    fn liquidity_fee(&self) -> (r: u32)
        ensures
            r == self@.liquidity_fee,
    {
        self.liquidity_fee
    }

    fn platform_fees_receiver(&self) -> (r: Option<Vec<u8>>)
        ensures
            receiver_view(r) == self@.platform_fees_receiver,
    {
        match &self.platform_fees_receiver {
            Some(a) => Some(a.clone()),
            None => None,
        }
    }

    fn swap_fee(&self) -> (r: u32)
        ensures
            r == self@.swap_fee,
    {
        self.swap_fee
    }
}

} // verus!
