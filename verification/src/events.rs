//! The event that a swap emits.
use crate::biguint::BigUint;
use crate::StablePool;
use vstd::prelude::*;

verus! {

/// What a swap reports: who swapped what for what, the fees, and when.
#[derive(Debug)]
pub struct SwapEvent {
    pub caller: Vec<u8>,
    pub token_in: Vec<u8>,
    pub amount_in: BigUint,
    pub token_out: Vec<u8>,
    pub net_amount_out: BigUint,
    pub lp_fee_amount: BigUint,
    pub platform_fee_amount: BigUint,
    pub timestamp: u64,
}

/// Swap events. The caller and the block timestamp are facts of the chain.
pub trait EventsModule {
    /// The event of a swap by `caller` at `timestamp`.
    fn emit_swap_event(
        &self,
        caller: &Vec<u8>,
        timestamp: u64,
        token_in: Vec<u8>,
        amount_in: BigUint,
        token_out: Vec<u8>,
        net_amount_out: BigUint,
        lp_fee_amount: BigUint,
        platform_fee_amount: BigUint,
    ) -> SwapEvent;
}

impl EventsModule for StablePool {
    fn emit_swap_event(
        &self,
        caller: &Vec<u8>,
        timestamp: u64,
        token_in: Vec<u8>,
        amount_in: BigUint,
        token_out: Vec<u8>,
        net_amount_out: BigUint,
        lp_fee_amount: BigUint,
        platform_fee_amount: BigUint,
    ) -> (r: SwapEvent)
        ensures
            r.caller@ == caller@,
            r.timestamp == timestamp,
            r.token_in@ == token_in@,
            r.amount_in@ == amount_in@,
            r.token_out@ == token_out@,
            r.net_amount_out@ == net_amount_out@,
            r.lp_fee_amount@ == lp_fee_amount@,
            r.platform_fee_amount@ == platform_fee_amount@,
    {
        SwapEvent {
            caller: caller.clone(),
            token_in,
            amount_in,
            token_out,
            net_amount_out,
            lp_fee_amount,
            platform_fee_amount,
            timestamp,
        }
    }
}

} // verus!
