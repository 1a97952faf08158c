//! The contract's endpoints and views, each a transition of the pool state.
//!
//! What the chain supplies (the caller, the payments received, the epoch, the
//! owner) comes in as arguments; what must be sent out comes back in the
//! result. A refused call leaves the pool unchanged.
use crate::access_control::{address_set, spec_caller_authorized, AccessControlModule};
use crate::amm::AmmModule;
use crate::analytics::{
    lemma_no_records, no_statistics, AnalyticsForEpoch, AnalyticsModule, EpochTokenAmount,
};
use crate::biguint::{values_of, BigUint};
use crate::events::{EventsModule, SwapEvent};
use crate::errors::{value_result, values_result, StablePoolError};
use crate::fees::{spec_liquidity_fee_rate, FeesModule};
use crate::liquidity::{
    spec_add_liquidity, spec_deposit, spec_remove_liquidity, spec_remove_liquidity_one_token,
    spec_swap, spec_swapped, spec_withdrawal, spec_withdrawn_one, LiquidityModule,
};
use crate::maths::MathsModule;
use crate::pausable::PausableModule;
use crate::tokens::{bytes_eq, is_valid_esdt_identifier, valid_esdt_identifier};
use crate::{receiver_view, token_views, PoolModel, StablePool};
use vstd::prelude::*;

verus! {

/// A transfer of a fungible ESDT token.
#[derive(Debug)]
pub struct EsdtTokenPayment {
    pub token_identifier: Vec<u8>,
    pub token_nonce: u64,
    pub amount: BigUint,
}

/// What a swap sends: the amount out to the caller and, when a platform fee
/// is due, that fee (in the token out) to the platform fees receiver.
#[derive(Debug)]
pub struct SwapOutcome {
    pub payment_out: EsdtTokenPayment,
    pub lp_fee: BigUint,
    pub platform_fee: BigUint,
    /// The receiver of the platform fee; `None` when the fee is 0.
    pub platform_fees_receiver: Option<Vec<u8>>,
    /// The "swap" event to emit, indexed by its tokens in and out.
    pub event: SwapEvent,
}

/// A role on an ESDT token that a contract can hold for its own address.
#[derive(Clone, Copy, Debug, PartialEq, Eq, Structural)]
pub enum EsdtLocalRole {
    /// Minting the token.
    Mint,
    /// Burning the token.
    Burn,
}

/// A request to the chain to grant `roles` on `token` to `address`.
#[derive(Debug)]
pub struct SpecialRoles {
    pub address: Vec<u8>,
    pub token: Vec<u8>,
    pub roles: Vec<EsdtLocalRole>,
}

/// What the answer to the LP token issuance asks to send to the caller who
/// requested it.
#[derive(Debug)]
pub enum CallbackAction {
    /// Send the issued tokens that came back.
    SendEsdt { token: Vec<u8>, amount: BigUint },
    /// Give back the EGLD paid for a failed issuance.
    RefundEgld { amount: BigUint },
    /// Nothing to send.
    Nothing,
}

/// The request to issue the LP token.
#[derive(Debug)]
pub struct LpTokenIssuance {
    pub egld_value: BigUint,
    pub display_name: Vec<u8>,
    pub ticker: Vec<u8>,
    pub initial_supply: BigUint,
    pub num_decimals: usize,
    pub can_freeze: bool,
    pub can_wipe: bool,
    pub can_pause: bool,
    pub can_mint: bool,
    pub can_burn: bool,
    pub can_change_owner: bool,
    pub can_upgrade: bool,
    pub can_add_special_roles: bool,
}

/// A summary of the pool.
#[derive(Debug)]
pub struct PairStatus {
    pub paused: bool,
    pub amp_factor: u32,
    pub nb_tokens: usize,
    pub tokens: Vec<Vec<u8>>,
    pub reserves: Vec<BigUint>,
    pub lp_token_identifier: Vec<u8>,
    pub lp_token_supply: BigUint,
    pub owner: Vec<u8>,
    pub swap_fee: u32,
    pub platform_fees_receiver: Option<Vec<u8>>,
    pub volume_prev_epoch: Vec<BigUint>,
    pub fees_prev_epoch: Vec<BigUint>,
    pub fees_last_7_epochs: Vec<BigUint>,
}

/// Why the initial settings are refused, if they are: fewer than two
/// tokens, a zero amplification factor, or a token listed twice.
pub open spec fn spec_init_error(amp_factor: nat, settings: Seq<(Vec<u8>, BigUint)>) -> Option<
    StablePoolError,
> {
    if settings.len() <= 1 {
        Some(StablePoolError::InvalidNumberOfTokens)
    } else if amp_factor == 0 {
        Some(StablePoolError::InvalidAmpFactor)
    } else if exists|i: int, j: int|
        0 <= i < j < settings.len() && settings[i].0@ == settings[j].0@ {
        Some(StablePoolError::TokensMustBeDifferent)
    } else {
        None
    }
}

/// A new pool: paused, empty, without fees, LP token or statistics.
pub open spec fn spec_initial_pool(amp_factor: nat, settings: Seq<(Vec<u8>, BigUint)>) -> PoolModel {
    PoolModel {
        paused: true,
        amp_factor,
        tokens: settings.map_values(|s: (Vec<u8>, BigUint)| s.0@),
        multipliers: settings.map_values(|s: (Vec<u8>, BigUint)| s.1@),
        reserves: Seq::new(settings.len(), |k: int| 0nat),
        lp_token: Seq::empty(),
        lp_token_supply: 0,
        swap_fee: 0,
        liquidity_fee: 0,
        platform_fees_receiver: None,
        lp_fees: no_statistics(),
        trading_volume: no_statistics(),
        ac_enabled: false,
        allowed_scs: Set::empty(),
    }
}

/// The position of `token` among the pool's tokens.
pub open spec fn spec_token_index(m: PoolModel, token: Seq<u8>) -> Result<nat, StablePoolError> {
    if m.tokens.contains(token) {
        Ok(m.tokens.index_of(token) as nat)
    } else {
        Err(StablePoolError::InvalidToken)
    }
}

/// The sum of the payments in `token`.
pub open spec fn payment_total(payments: Seq<EsdtTokenPayment>, token: Seq<u8>) -> nat
    decreases payments.len(),
{
    if payments.len() == 0 {
        0
    } else {
        payment_total(payments.drop_last(), token) + if payments.last().token_identifier@ == token {
            payments.last().amount@
        } else {
            0
        }
    }
}

/// Per token of the pool, the sum paid in it.
pub open spec fn payment_amounts(m: PoolModel, payments: Seq<EsdtTokenPayment>) -> Seq<nat> {
    Seq::new(m.tokens.len(), |k: int| payment_total(payments, m.tokens[k]))
}

/// Every payment is in one of the pool's tokens.
pub open spec fn payments_valid(m: PoolModel, payments: Seq<EsdtTokenPayment>) -> bool {
    forall|p: int| 0 <= p < payments.len() ==> m.tokens.contains(payments[p].token_identifier@)
}

/// The shares minted for `payments`, at least `min_shares`; refused while
/// paused, without payment, or with a payment in a foreign token.
pub open spec fn spec_add_liquidity_call(
    m: PoolModel,
    payments: Seq<EsdtTokenPayment>,
    min_shares: nat,
) -> Result<nat, StablePoolError> {
    if m.paused {
        Err(StablePoolError::Paused)
    } else if payments.len() == 0 {
        Err(StablePoolError::NoPayment)
    } else if !payments_valid(m, payments) {
        Err(StablePoolError::InvalidPaymentToken)
    } else {
        match spec_add_liquidity(m, payment_amounts(m, payments)) {
            Err(e) => Err(e),
            Ok(shares) => if shares < min_shares {
                Err(StablePoolError::MaxSlippageExceeded)
            } else {
                Ok(shares)
            },
        }
    }
}

/// Each amount out, from position `k` on, against the minimum asked for it.
pub open spec fn check_min_amounts(amounts: Seq<nat>, mins: Seq<nat>, k: nat) -> Result<
    (),
    StablePoolError,
>
    decreases amounts.len() - k,
{
    if k >= amounts.len() {
        Ok(())
    } else if k >= mins.len() {
        Err(StablePoolError::IndexOutOfRange)
    } else if amounts[k as int] < mins[k as int] {
        Err(StablePoolError::MaxSlippageExceeded)
    } else {
        check_min_amounts(amounts, mins, k + 1)
    }
}

/// The amounts paid for `amount_in` shares (paid in the LP token), each at
/// least its minimum.
pub open spec fn spec_remove_liquidity_call(
    m: PoolModel,
    token_in: Seq<u8>,
    amount_in: nat,
    min_amounts: Seq<nat>,
) -> Result<Seq<nat>, StablePoolError> {
    if token_in != m.lp_token {
        Err(StablePoolError::InvalidPaymentToken)
    } else {
        match spec_remove_liquidity(m, amount_in, false) {
            Err(e) => Err(e),
            Ok(amounts) => match check_min_amounts(amounts, min_amounts, 0) {
                Err(e) => Err(e),
                Ok(_) => Ok(amounts),
            },
        }
    }
}

/// The amount of `token_out` paid for `amount_in` shares, at least
/// `min_amount_out`.
pub open spec fn spec_remove_liquidity_one_token_call(
    m: PoolModel,
    token_in: Seq<u8>,
    amount_in: nat,
    token_out: Seq<u8>,
    min_amount_out: nat,
) -> Result<nat, StablePoolError> {
    if token_in != m.lp_token {
        Err(StablePoolError::InvalidPaymentToken)
    } else {
        match spec_token_index(m, token_out) {
            Err(e) => Err(e),
            Ok(i) => match spec_remove_liquidity_one_token(m, amount_in, i, false) {
                Err(e) => Err(e),
                Ok(amount) => if amount < min_amount_out {
                    Err(StablePoolError::MaxSlippageExceeded)
                } else {
                    Ok(amount)
                },
            },
        }
    }
}

/// `(amount out, lp fee, platform fee)` of selling `amount_in` of `token_in`
/// for `token_out`, at least `min_amount_out` (which must be positive);
/// refused to a smart contract that access control does not let in, while
/// paused, and when a platform fee is due but nobody is set to receive it.
pub open spec fn spec_swap_call(
    m: PoolModel,
    caller: Seq<u8>,
    caller_is_smart_contract: bool,
    token_in: Seq<u8>,
    amount_in: nat,
    token_out: Seq<u8>,
    min_amount_out: nat,
) -> Result<(nat, nat, nat), StablePoolError> {
    if !spec_caller_authorized(m.ac_enabled, m.allowed_scs, caller, caller_is_smart_contract) {
        Err(StablePoolError::Unauthorized)
    } else if min_amount_out == 0 {
        Err(StablePoolError::InvalidMinAmountToReceive)
    } else if m.paused {
        Err(StablePoolError::Paused)
    } else {
        match spec_token_index(m, token_in) {
            Err(e) => Err(e),
            Ok(i) => match spec_token_index(m, token_out) {
                Err(e) => Err(e),
                Ok(j) => match spec_swap(m, i, j, amount_in) {
                    Err(e) => Err(e),
                    Ok(r) => if r.0 < min_amount_out {
                        Err(StablePoolError::MaxSlippageExceeded)
                    } else if r.2 > 0 && m.platform_fees_receiver is None {
                        Err(StablePoolError::PlatformFeesReceiverNotSet)
                    } else {
                        Ok(r)
                    },
                },
            },
        }
    }
}

/// The pool after a swap: reserves moved, the LP fee added to the fees of
/// `token_out` in `epoch`, and both amounts added to the volumes.
pub open spec fn spec_swap_call_state(
    m: PoolModel,
    token_in: Seq<u8>,
    amount_in: nat,
    token_out: Seq<u8>,
    epoch: u64,
    out: nat,
    lp_fee: nat,
    platform_fee: nat,
) -> PoolModel {
    let i = spec_token_index(m, token_in)->Ok_0;
    let j = spec_token_index(m, token_out)->Ok_0;
    let s1 = spec_swapped(m, i, j, amount_in, out, platform_fee);
    let s2 = s1.with_lp_fees(s1.lp_fees.insert((epoch, token_out), s1.lp_fees[(epoch, token_out)] + lp_fee));
    let s3 = s2.with_trading_volume(
        s2.trading_volume.insert((epoch, token_in), s2.trading_volume[(epoch, token_in)] + amount_in),
    );
    s3.with_trading_volume(
        s3.trading_volume.insert((epoch, token_out), s3.trading_volume[(epoch, token_out)] + out),
    )
}

/// The amount out of a swap, as `swap` would compute it, without slippage
/// check; refused while paused.
pub open spec fn spec_estimate_amount_out(
    m: PoolModel,
    token_in: Seq<u8>,
    amount_in: nat,
    token_out: Seq<u8>,
) -> Result<nat, StablePoolError> {
    if m.paused {
        Err(StablePoolError::Paused)
    } else {
        match spec_token_index(m, token_in) {
            Err(e) => Err(e),
            Ok(i) => match spec_token_index(m, token_out) {
                Err(e) => Err(e),
                Ok(j) => match spec_swap(m, i, j, amount_in) {
                    Err(e) => Err(e),
                    Ok(r) => Ok(r.0),
                },
            },
        }
    }
}

/// The shares a deposit of `amounts` would mint; refused while paused.
pub open spec fn spec_estimate_add_liquidity(m: PoolModel, amounts: Seq<nat>) -> Result<
    nat,
    StablePoolError,
> {
    if m.paused {
        Err(StablePoolError::Paused)
    } else {
        spec_add_liquidity(m, amounts)
    }
}

/// The amount of `token_out` that `shares` would be paid.
pub open spec fn spec_estimate_remove_liquidity_one_token(
    m: PoolModel,
    shares: nat,
    token_out: Seq<u8>,
) -> Result<nat, StablePoolError> {
    match spec_token_index(m, token_out) {
        Err(e) => Err(e),
        Ok(i) => spec_remove_liquidity_one_token(m, shares, i, true),
    }
}

/// The LP fees of `token` over the `count` epochs ending at `last_epoch`.
pub open spec fn fees_over_epochs(
    fees: Map<(u64, Seq<u8>), nat>,
    last_epoch: u64,
    token: Seq<u8>,
    count: nat,
) -> nat
    decreases count,
{
    if count == 0 {
        0
    } else {
        fees_over_epochs(fees, last_epoch, token, (count - 1) as nat) + fees[(
            (last_epoch - (count - 1)) as u64,
            token,
        )]
    }
}

/// The contract: setup, owner settings, liquidity, swaps and views.
pub trait JexScStablepoolContract: AmmModule + AnalyticsModule + FeesModule + LiquidityModule + MathsModule + PausableModule + View<V = PoolModel> + Sized {
    /// A new pool of the given tokens, each with the multiplier that brings
    /// its amounts to a common precision; it starts paused.
    fn init(amp_factor: u32, tokens_and_multipliers: Vec<(Vec<u8>, BigUint)>) -> Result<
        Self,
        StablePoolError,
    >
        requires
            tokens_and_multipliers.len() <= i64::MAX,
    ;

    /// Sets the receiver of platform fees; only the owner may.
    fn configure_platform_fees_receiver(&mut self, caller: &Vec<u8>, owner: &Vec<u8>, receiver: &Vec<u8>) -> Result<
        (),
        StablePoolError,
    >;

    /// Sets the swap fee (in millionths); only the owner may.
    fn set_swap_fee(&mut self, caller: &Vec<u8>, owner: &Vec<u8>, swap_fee: u32) -> Result<
        (),
        StablePoolError,
    >
        requires
            caller@ == owner@ ==> swap_fee * old(self)@.nb_tokens() <= u32::MAX,
            caller@ == owner@ ==> 4 * (old(self)@.nb_tokens() - 1) <= u32::MAX,
    ;

    /// The issuance of the LP token, paid with `egld_value`: a fungible token
    /// of 18 decimals, 1000 units first minted, with every property granted;
    /// only the owner may ask, and only while the LP token does not exist.
    fn issue_lp_token(
        &self,
        caller: &Vec<u8>,
        owner: &Vec<u8>,
        egld_value: &BigUint,
        lp_token_display_name: &Vec<u8>,
        lp_token_ticker: &Vec<u8>,
    ) -> Result<LpTokenIssuance, StablePoolError>;

    /// The grant of the mint and burn roles on the LP token to the pool's
    /// own address `sc_address`, once the token is issued; only the owner
    /// may ask.
    fn enable_mint_burn(&self, caller: &Vec<u8>, owner: &Vec<u8>, sc_address: &Vec<u8>) -> Result<
        SpecialRoles,
        StablePoolError,
    >;

    /// Pauses the pool; only the owner may.
    fn pause(&mut self, caller: &Vec<u8>, owner: &Vec<u8>) -> Result<(), StablePoolError>;

    /// Resumes the pool; only the owner may.
    fn resume(&mut self, caller: &Vec<u8>, owner: &Vec<u8>) -> Result<(), StablePoolError>;

    /// Deposits the `payments` and mints at least `min_shares` shares.
    fn add_liquidity(&mut self, payments: &Vec<EsdtTokenPayment>, min_shares: &BigUint) -> Result<
        BigUint,
        StablePoolError,
    >;

    /// Burns `amount_in` shares (paid in `token_in`, the LP token) for a part
    /// of every reserve, each at least its minimum.
    fn remove_liquidity(
        &mut self,
        token_in: &Vec<u8>,
        amount_in: &BigUint,
        min_amounts: &Vec<BigUint>,
    ) -> Result<Vec<EsdtTokenPayment>, StablePoolError>;

    /// Burns `amount_in` shares for `token_out` alone.
    fn remove_liquidity_one_token(
        &mut self,
        token_in: &Vec<u8>,
        amount_in: &BigUint,
        token_out: &Vec<u8>,
        min_amount_out: &BigUint,
    ) -> Result<EsdtTokenPayment, StablePoolError>;

    /// Sells `amount_in` of `token_in` for at least `min_amount_out` of
    /// `token_out` on behalf of `caller` (a smart contract or not, as the
    /// chain tells), recording the statistics of `epoch`; the outcome holds
    /// the event of the swap, stamped `timestamp`.
    fn swap(
        &mut self,
        caller: &Vec<u8>,
        caller_is_smart_contract: bool,
        token_in: &Vec<u8>,
        amount_in: &BigUint,
        token_out: &Vec<u8>,
        min_amount_out: &BigUint,
        epoch: u64,
        timestamp: u64,
    ) -> Result<SwapOutcome, StablePoolError>;

    /// The amount out of a swap.
    fn estimate_amount_out(&self, token_in: &Vec<u8>, amount_in: &BigUint, token_out: &Vec<u8>) -> Result<
        BigUint,
        StablePoolError,
    >;

    /// The shares that depositing `amounts` would mint.
    fn estimate_add_liquidity(&self, amounts: &Vec<BigUint>) -> Result<BigUint, StablePoolError>;

    /// The amounts that burning `shares` would pay.
    fn estimate_remove_liquidity(&self, shares: &BigUint) -> Result<Vec<BigUint>, StablePoolError>;

    /// The amount of `token_out` that burning `shares` would pay.
    fn estimate_remove_liquidity_one_token(&self, shares: &BigUint, token_out: &Vec<u8>) -> Result<
        BigUint,
        StablePoolError,
    >;

    /// The statistics of the `countback` epochs before `current_epoch`.
    fn get_analytics_for_last_epochs(&self, countback: u64, current_epoch: u64) -> Vec<
        AnalyticsForEpoch,
    >
        requires
            countback <= current_epoch,
    ;

    /// A summary of the pool in `current_epoch`, owned by `owner`.
    fn get_status(&self, current_epoch: u64, owner: &Vec<u8>) -> PairStatus
        requires
            current_epoch >= 7,
    ;

    /// Handles the answer to the LP token issuance: on success the token
    /// received (`None` for EGLD) becomes the LP token.
    fn lp_token_issue_callback(
        &mut self,
        issue_succeeded: bool,
        token: &Option<Vec<u8>>,
        returned_amount: &BigUint,
    ) -> Result<CallbackAction, StablePoolError>;

    /// The position of `token` among the pool's tokens.
    fn get_token_index(&self, token: &Vec<u8>) -> Result<usize, StablePoolError>;

    /// The identifier of token `i` (empty past the last token).
    fn tokens(&self, i: usize) -> Vec<u8>;
}

/// Refuses a `caller` other than the `owner` of the contract.
pub fn require_owner(caller: &Vec<u8>, owner: &Vec<u8>) -> (r: Result<(), StablePoolError>)
    ensures
        r is Ok <==> caller@ == owner@,
        r is Err ==> r == Err::<(), StablePoolError>(StablePoolError::NotOwner),
{
    if bytes_eq(caller, owner) {
        Ok(())
    } else {
        Err(StablePoolError::NotOwner)
    }
}

/// The position found by `get_token_index`, or its error.
pub open spec fn index_result(r: Result<usize, StablePoolError>) -> Result<nat, StablePoolError> {
    match r {
        Ok(i) => Ok(i as nat),
        Err(e) => Err(e),
    }
}

/// The amounts of the payments that an operation returns, or its error.
pub open spec fn payments_result(r: Result<Vec<EsdtTokenPayment>, StablePoolError>) -> Result<
    Seq<nat>,
    StablePoolError,
> {
    match r {
        Ok(v) => Ok(v@.map_values(|p: EsdtTokenPayment| p.amount@)),
        Err(e) => Err(e),
    }
}

/// The amounts of a swap outcome, or its error.
pub open spec fn swap_outcome_result(r: Result<SwapOutcome, StablePoolError>) -> Result<
    (nat, nat, nat),
    StablePoolError,
> {
    match r {
        Ok(o) => Ok((o.payment_out.amount@, o.lp_fee@, o.platform_fee@)),
        Err(e) => Err(e),
    }
}

impl StablePool {
    /// The sum paid in `token`.
    fn sum_payments(payments: &Vec<EsdtTokenPayment>, token: &Vec<u8>) -> (r: BigUint)
        ensures
            r@ == payment_total(payments@, token@),
    {
        let mut amount = BigUint::from_u64(0);
        let mut k: usize = 0;
        while k < payments.len()
            invariant
                0 <= k <= payments.len(),
                amount@ == payment_total(payments@.take(k as int), token@),
            decreases payments.len() - k,
        {
            proof {
                assert(payments@.take(k + 1).drop_last() =~= payments@.take(k as int));
            }
            if bytes_eq(&payments[k].token_identifier, token) {
                amount = amount.plus(&payments[k].amount);
            }
            k += 1;
        }
        proof {
            assert(payments@.take(payments.len() as int) =~= payments@);
        }
        amount
    }

    /// A copy of the token identifiers.
    fn copy_tokens(&self) -> (r: Vec<Vec<u8>>)
        ensures
            token_views(r@) == self@.tokens,
            r.len() == self@.tokens.len(),
    {
        let mut out: Vec<Vec<u8>> = Vec::new();
        let mut k: usize = 0;
        while k < self.tokens.len()
            invariant
                0 <= k <= self.tokens.len(),
                out.len() == k,
                forall|t: int| 0 <= t < k ==> #[trigger] out@[t]@ == self.tokens@[t]@,
            decreases self.tokens.len() - k,
        {
            out.push(self.tokens[k].clone());
            k += 1;
        }
        proof {
            assert(token_views(out@) =~= self@.tokens);
        }
        out
    }
}

impl JexScStablepoolContract for StablePool {
    #[verifier::loop_isolation(false)]
    fn init(amp_factor: u32, tokens_and_multipliers: Vec<(Vec<u8>, BigUint)>) -> (r: Result<
        Self,
        StablePoolError,
    >)
        ensures
            match r {
                Ok(p) => spec_init_error(amp_factor as nat, tokens_and_multipliers@) is None && p@
                    == spec_initial_pool(amp_factor as nat, tokens_and_multipliers@),
                Err(e) => spec_init_error(amp_factor as nat, tokens_and_multipliers@) == Some(e),
            },
    {
        let ghost settings = tokens_and_multipliers@;
        let n = tokens_and_multipliers.len();
        if n <= 1 {
            return Err(StablePoolError::InvalidNumberOfTokens);
        }
        if amp_factor == 0 {
            return Err(StablePoolError::InvalidAmpFactor);
        }
        let mut tokens: Vec<Vec<u8>> = Vec::new();
        let mut multipliers: Vec<BigUint> = Vec::new();
        let mut reserves: Vec<BigUint> = Vec::new();
        let mut i: usize = 0;
        while i < n
            invariant
                n == tokens_and_multipliers.len(),
                settings == tokens_and_multipliers@,
                0 <= i <= n,
                tokens.len() == i,
                multipliers.len() == i,
                reserves.len() == i,
                forall|t: int| 0 <= t < i ==> #[trigger] tokens@[t]@ == settings[t].0@,
                forall|t: int| 0 <= t < i ==> #[trigger] multipliers@[t]@ == settings[t].1@,
                forall|t: int| 0 <= t < i ==> #[trigger] reserves@[t]@ == 0,
                forall|a: int, b: int| 0 <= a < b < i ==> settings[a].0@ != settings[b].0@,
            decreases n - i,
        {
            let token = tokens_and_multipliers[i].0.clone();
            let mut j: usize = 0;
            while j < i
                invariant
                    0 <= j <= i,
                    i < n,
                    n == tokens_and_multipliers.len(),
                    settings == tokens_and_multipliers@,
                    tokens.len() == i,
                    token@ == settings[i as int].0@,
                    forall|t: int| 0 <= t < i ==> #[trigger] tokens@[t]@ == settings[t].0@,
                    forall|t: int| 0 <= t < j ==> settings[t].0@ != settings[i as int].0@,
                decreases i - j,
            {
                if bytes_eq(&tokens[j], &token) {
                    proof {
                        assert(settings[j as int].0@ == settings[i as int].0@);
                        assert(exists|a: int, b: int|
                            0 <= a < b < settings.len() && settings[a].0@ == settings[b].0@);
                    }
                    return Err(StablePoolError::TokensMustBeDifferent);
                }
                j += 1;
            }
            tokens.push(token);
            multipliers.push(tokens_and_multipliers[i].1.clone_value());
            reserves.push(BigUint::from_u64(0));
            i += 1;
        }
        proof {
            assert(token_views(tokens@) =~= settings.map_values(|s: (Vec<u8>, BigUint)| s.0@));
            assert(values_of(multipliers@) =~= settings.map_values(|s: (Vec<u8>, BigUint)| s.1@));
            assert(values_of(reserves@) =~= Seq::new(settings.len(), |k: int| 0nat));
            lemma_no_records();
            assert(address_set(Seq::<Vec<u8>>::empty()) =~= Set::<Seq<u8>>::empty());
        }
        let lp_token: Vec<u8> = Vec::new();
        let lp_fees: Vec<EpochTokenAmount> = Vec::new();
        let trading_volume: Vec<EpochTokenAmount> = Vec::new();
        let allowed_scs: Vec<Vec<u8>> = Vec::new();
        proof {
            assert(lp_token@ =~= Seq::<u8>::empty());
            assert(lp_fees@ =~= Seq::<EpochTokenAmount>::empty());
            assert(trading_volume@ =~= Seq::<EpochTokenAmount>::empty());
            assert(allowed_scs@ =~= Seq::<Vec<u8>>::empty());
        }
        let mut pool = StablePool {
            paused: false,
            amp_factor,
            nb_tokens: n,
            tokens,
            multipliers,
            reserves,
            lp_token,
            lp_token_supply: BigUint::from_u64(0),
            swap_fee: 0,
            liquidity_fee: 0,
            platform_fees_receiver: None,
            lp_fees,
            trading_volume,
            ac_enabled: false,
            allowed_scs,
        };
        pool.do_pause();
        Ok(pool)
    }

    fn configure_platform_fees_receiver(&mut self, caller: &Vec<u8>, owner: &Vec<u8>, receiver: &Vec<u8>) -> (r:
        Result<(), StablePoolError>)
        ensures
            r is Ok <==> caller@ == owner@,
            r is Err ==> r == Err::<(), StablePoolError>(StablePoolError::NotOwner) && final(self)@
                == old(self)@,
            r is Ok ==> final(self)@ == old(self)@.with_fees_receiver(receiver@),
    {
        if let Err(e) = require_owner(caller, owner) {
            return Err(e);
        }
        self.do_configure_platform_fees_receiver(receiver);
        Ok(())
    }

    fn set_swap_fee(&mut self, caller: &Vec<u8>, owner: &Vec<u8>, swap_fee: u32) -> (r: Result<
        (),
        StablePoolError,
    >)
        ensures
            r is Ok <==> caller@ == owner@,
            r is Err ==> r == Err::<(), StablePoolError>(StablePoolError::NotOwner) && final(self)@
                == old(self)@,
            r is Ok ==> final(self)@ == old(self)@.with_fees(
                swap_fee as nat,
                spec_liquidity_fee_rate(swap_fee as nat, old(self)@.nb_tokens()),
            ),
    {
        proof {
            use_type_invariant(&*self);
        }
        if let Err(e) = require_owner(caller, owner) {
            return Err(e);
        }
        let n = self.nb_tokens;
        self.update_swap_fee(n, swap_fee);
        Ok(())
    }

    fn issue_lp_token(
        &self,
        caller: &Vec<u8>,
        owner: &Vec<u8>,
        egld_value: &BigUint,
        lp_token_display_name: &Vec<u8>,
        lp_token_ticker: &Vec<u8>,
    ) -> (r: Result<LpTokenIssuance, StablePoolError>)
        ensures
            caller@ != owner@ ==> r == Err::<LpTokenIssuance, StablePoolError>(
                StablePoolError::NotOwner,
            ),
            caller@ == owner@ ==> (r is Ok <==> self@.lp_token.len() == 0),
            caller@ == owner@ && r is Err ==> r matches Err(StablePoolError::LpTokenAlreadyIssued),
            r matches Ok(t) ==> {
                &&& t.egld_value@ == egld_value@
                &&& t.display_name@ == lp_token_display_name@
                &&& t.ticker@ == lp_token_ticker@
                &&& t.initial_supply@ == 1000
                &&& t.num_decimals == 18
                &&& t.can_freeze && t.can_wipe && t.can_pause && t.can_mint && t.can_burn
                &&& t.can_change_owner && t.can_upgrade && t.can_add_special_roles
            },
    {
        if let Err(e) = require_owner(caller, owner) {
            return Err(e);
        }
        if self.lp_token.len() != 0 {
            return Err(StablePoolError::LpTokenAlreadyIssued);
        }
        Ok(
            LpTokenIssuance {
                egld_value: egld_value.clone_value(),
                display_name: lp_token_display_name.clone(),
                ticker: lp_token_ticker.clone(),
                initial_supply: BigUint::from_u64(1000),
                num_decimals: 18,
                can_freeze: true,
                can_wipe: true,
                can_pause: true,
                can_mint: true,
                can_burn: true,
                can_change_owner: true,
                can_upgrade: true,
                can_add_special_roles: true,
            },
        )
    }

    fn enable_mint_burn(&self, caller: &Vec<u8>, owner: &Vec<u8>, sc_address: &Vec<u8>) -> (r: Result<
        SpecialRoles,
        StablePoolError,
    >)
        ensures
            caller@ != owner@ ==> r == Err::<SpecialRoles, StablePoolError>(
                StablePoolError::NotOwner,
            ),
            caller@ == owner@ ==> (r is Ok <==> valid_esdt_identifier(self@.lp_token)),
            caller@ == owner@ && r is Err ==> r == Err::<SpecialRoles, StablePoolError>(
                StablePoolError::LpTokenNotIssued,
            ),
            r matches Ok(g) ==> {
                &&& g.address@ == sc_address@
                &&& g.token@ == self@.lp_token
                &&& g.roles@ == seq![EsdtLocalRole::Mint, EsdtLocalRole::Burn]
            },
    {
        if let Err(e) = require_owner(caller, owner) {
            return Err(e);
        }
        if !is_valid_esdt_identifier(&self.lp_token) {
            return Err(StablePoolError::LpTokenNotIssued);
        }
        Ok(
            SpecialRoles {
                address: sc_address.clone(),
                token: self.lp_token.clone(),
                roles: vec![EsdtLocalRole::Mint, EsdtLocalRole::Burn],
            },
        )
    }

    fn pause(&mut self, caller: &Vec<u8>, owner: &Vec<u8>) -> (r: Result<(), StablePoolError>)
        ensures
            r is Ok <==> caller@ == owner@,
            r is Err ==> r == Err::<(), StablePoolError>(StablePoolError::NotOwner) && final(self)@
                == old(self)@,
            r is Ok ==> final(self)@ == old(self)@.with_paused(true),
    {
        if let Err(e) = require_owner(caller, owner) {
            return Err(e);
        }
        self.do_pause();
        Ok(())
    }

    fn resume(&mut self, caller: &Vec<u8>, owner: &Vec<u8>) -> (r: Result<(), StablePoolError>)
        ensures
            r is Ok <==> caller@ == owner@,
            r is Err ==> r == Err::<(), StablePoolError>(StablePoolError::NotOwner) && final(self)@
                == old(self)@,
            r is Ok ==> final(self)@ == old(self)@.with_paused(false),
    {
        if let Err(e) = require_owner(caller, owner) {
            return Err(e);
        }
        self.do_unpause();
        Ok(())
    }

    #[verifier::loop_isolation(false)]
    fn add_liquidity(&mut self, payments: &Vec<EsdtTokenPayment>, min_shares: &BigUint) -> (r: Result<
        BigUint,
        StablePoolError,
    >)
        ensures
            value_result(r) == spec_add_liquidity_call(old(self)@, payments@, min_shares@),
            r is Err ==> final(self)@ == old(self)@,
            r is Ok ==> final(self)@ == spec_deposit(
                old(self)@,
                payment_amounts(old(self)@, payments@),
                r->Ok_0@,
            ),
    {
        proof {
            use_type_invariant(&*self);
        }
        if let Err(e) = self.require_not_paused() {
            return Err(e);
        }
        if payments.len() == 0 {
            return Err(StablePoolError::NoPayment);
        }
        let n = self.nb_tokens;
        let mut amounts: Vec<BigUint> = Vec::new();
        let mut k: usize = 0;
        while k < n
            invariant
                n == self.tokens.len(),
                0 <= k <= n,
                amounts.len() == k,
                forall|t: int|
                    0 <= t < k ==> #[trigger] amounts@[t]@ == payment_total(payments@, self@.tokens[t]),
            decreases n - k,
        {
            amounts.push(Self::sum_payments(payments, &self.tokens[k]));
            k += 1;
        }
        proof {
            assert(values_of(amounts@) =~= payment_amounts(self@, payments@));
        }
        let mut p: usize = 0;
        while p < payments.len()
            invariant
                0 <= p <= payments.len(),
                forall|q: int|
                    0 <= q < p ==> self@.tokens.contains(#[trigger] payments@[q].token_identifier@),
            decreases payments.len() - p,
        {
            if self.get_token_index(&payments[p].token_identifier).is_err() {
                proof {
                    assert(!self@.tokens.contains(payments@[p as int].token_identifier@));
                    assert(!payments_valid(self@, payments@));
                }
                return Err(StablePoolError::InvalidPaymentToken);
            }
            p += 1;
        }
        let shares = match self.compute_add_liquidity(&amounts) {
            Ok(s) => s,
            Err(e) => {
                return Err(e);
            },
        };
        if shares.less_than(min_shares) {
            return Err(StablePoolError::MaxSlippageExceeded);
        }
        self.apply_deposit(&amounts, &shares);
        Ok(shares)
    }

    #[verifier::loop_isolation(false)]
    fn remove_liquidity(
        &mut self,
        token_in: &Vec<u8>,
        amount_in: &BigUint,
        min_amounts: &Vec<BigUint>,
    ) -> (r: Result<Vec<EsdtTokenPayment>, StablePoolError>)
        ensures
            payments_result(r) == spec_remove_liquidity_call(
                old(self)@,
                token_in@,
                amount_in@,
                values_of(min_amounts@),
            ),
            r is Err ==> final(self)@ == old(self)@,
            r matches Ok(p) ==> {
                &&& p.len() == old(self)@.nb_tokens()
                &&& forall|k: int|
                    #![trigger p@[k]]
                    0 <= k < p.len() ==> p@[k].token_identifier@ == old(self)@.tokens[k]
                        && p@[k].token_nonce == 0
                &&& final(self)@ == spec_withdrawal(
                    old(self)@,
                    amount_in@,
                    p@.map_values(|q: EsdtTokenPayment| q.amount@),
                )
            },
    {
        proof {
            use_type_invariant(&*self);
        }
        let ghost mins = values_of(min_amounts@);
        if !bytes_eq(token_in, &self.lp_token) {
            return Err(StablePoolError::InvalidPaymentToken);
        }
        let amounts_out = match self.compute_remove_liquidity(amount_in, false) {
            Ok(a) => a,
            Err(e) => {
                return Err(e);
            },
        };
        let ghost outs = values_of(amounts_out@);
        let n = amounts_out.len();
        let mut payments: Vec<EsdtTokenPayment> = Vec::new();
        let mut k: usize = 0;
        while k < n
            invariant
                n == amounts_out.len(),
                n == self.tokens.len(),
                outs == values_of(amounts_out@),
                mins == values_of(min_amounts@),
                0 <= k <= n,
                payments.len() == k,
                check_min_amounts(outs, mins, k as nat) == check_min_amounts(outs, mins, 0),
                forall|t: int|
                    #![trigger payments@[t]]
                    0 <= t < k ==> payments@[t].token_identifier@ == self@.tokens[t]
                        && payments@[t].token_nonce == 0 && payments@[t].amount@ == outs[t],
            decreases n - k,
        {
            if k >= min_amounts.len() {
                return Err(StablePoolError::IndexOutOfRange);
            }
            if amounts_out[k].less_than(&min_amounts[k]) {
                return Err(StablePoolError::MaxSlippageExceeded);
            }
            payments.push(
                EsdtTokenPayment {
                    token_identifier: self.tokens[k].clone(),
                    token_nonce: 0,
                    amount: amounts_out[k].clone_value(),
                },
            );
            k += 1;
        }
        proof {
            assert(payments@.map_values(|q: EsdtTokenPayment| q.amount@) =~= outs);
        }
        self.apply_withdrawal(amount_in, &amounts_out);
        Ok(payments)
    }

    fn remove_liquidity_one_token(
        &mut self,
        token_in: &Vec<u8>,
        amount_in: &BigUint,
        token_out: &Vec<u8>,
        min_amount_out: &BigUint,
    ) -> (r: Result<EsdtTokenPayment, StablePoolError>)
        ensures
            value_result(
                match r {
                    Ok(p) => Ok(p.amount),
                    Err(e) => Err(e),
                },
            ) == spec_remove_liquidity_one_token_call(
                old(self)@,
                token_in@,
                amount_in@,
                token_out@,
                min_amount_out@,
            ),
            r is Err ==> final(self)@ == old(self)@,
            r matches Ok(p) ==> p.token_identifier@ == token_out@ && p.token_nonce == 0
                && final(self)@ == spec_withdrawn_one(
                old(self)@,
                amount_in@,
                spec_token_index(old(self)@, token_out@)->Ok_0,
                p.amount@,
            ),
    {
        proof {
            use_type_invariant(&*self);
        }
        if !bytes_eq(token_in, &self.lp_token) {
            return Err(StablePoolError::InvalidPaymentToken);
        }
        let i = match self.get_token_index(token_out) {
            Ok(i) => i,
            Err(e) => {
                return Err(e);
            },
        };
        let (amount_out, _fee) = match self.calculate_withdraw_one_token(amount_in, i) {
            Ok(t) => t,
            Err(e) => {
                return Err(e);
            },
        };
        if self.lp_token_supply.less_than(amount_in) {
            return Err(StablePoolError::NegativeSubtraction);
        }
        if amount_out.less_than(min_amount_out) {
            return Err(StablePoolError::MaxSlippageExceeded);
        }
        self.apply_withdrawal_one(amount_in, i, &amount_out);
        Ok(EsdtTokenPayment { token_identifier: token_out.clone(), token_nonce: 0, amount: amount_out })
    }

    fn swap(
        &mut self,
        caller: &Vec<u8>,
        caller_is_smart_contract: bool,
        token_in: &Vec<u8>,
        amount_in: &BigUint,
        token_out: &Vec<u8>,
        min_amount_out: &BigUint,
        epoch: u64,
        timestamp: u64,
    ) -> (r: Result<SwapOutcome, StablePoolError>)
        ensures
            swap_outcome_result(r) == spec_swap_call(
                old(self)@,
                caller@,
                caller_is_smart_contract,
                token_in@,
                amount_in@,
                token_out@,
                min_amount_out@,
            ),
            r is Err ==> final(self)@ == old(self)@,
            r matches Ok(o) ==> {
                &&& o.payment_out.token_identifier@ == token_out@
                &&& o.payment_out.token_nonce == 0
                &&& receiver_view(o.platform_fees_receiver) == if o.platform_fee@ > 0 {
                    old(self)@.platform_fees_receiver
                } else {
                    None
                }
                &&& o.event.caller@ == caller@
                &&& o.event.token_in@ == token_in@
                &&& o.event.amount_in@ == amount_in@
                &&& o.event.token_out@ == token_out@
                &&& o.event.net_amount_out@ == o.payment_out.amount@
                &&& o.event.lp_fee_amount@ == o.lp_fee@
                &&& o.event.platform_fee_amount@ == o.platform_fee@
                &&& o.event.timestamp == timestamp
                &&& final(self)@ == spec_swap_call_state(
                    old(self)@,
                    token_in@,
                    amount_in@,
                    token_out@,
                    epoch,
                    o.payment_out.amount@,
                    o.lp_fee@,
                    o.platform_fee@,
                )
            },
    {
        proof {
            use_type_invariant(&*self);
        }
        if let Err(e) = self.require_caller_is_authorized(caller, caller_is_smart_contract) {
            return Err(e);
        }
        let zero = BigUint::from_u64(0);
        if min_amount_out.equals(&zero) {
            return Err(StablePoolError::InvalidMinAmountToReceive);
        }
        if let Err(e) = self.require_not_paused() {
            return Err(e);
        }
        let i = match self.get_token_index(token_in) {
            Ok(i) => i,
            Err(e) => {
                return Err(e);
            },
        };
        let j = match self.get_token_index(token_out) {
            Ok(j) => j,
            Err(e) => {
                return Err(e);
            },
        };
        let (out, lp_fee, platform_fee) = match self.compute_swap(i, j, amount_in) {
            Ok(t) => t,
            Err(e) => {
                return Err(e);
            },
        };
        if out.less_than(min_amount_out) {
            return Err(StablePoolError::MaxSlippageExceeded);
        }
        let receiver = if zero.less_than(&platform_fee) {
            match &self.platform_fees_receiver {
                Some(a) => Some(a.clone()),
                None => {
                    return Err(StablePoolError::PlatformFeesReceiverNotSet);
                },
            }
        } else {
            None
        };
        self.apply_swap(i, j, amount_in, &out, &lp_fee, &platform_fee);
        self.analytics_add_lp_fees(token_out, &lp_fee, epoch);
        self.analytics_add_volume(token_in, amount_in, epoch);
        self.analytics_add_volume(token_out, &out, epoch);
        let event = self.emit_swap_event(
            caller,
            timestamp,
            token_in.clone(),
            amount_in.clone_value(),
            token_out.clone(),
            out.clone_value(),
            lp_fee.clone_value(),
            platform_fee.clone_value(),
        );
        Ok(
            SwapOutcome {
                payment_out: EsdtTokenPayment {
                    token_identifier: token_out.clone(),
                    token_nonce: 0,
                    amount: out,
                },
                lp_fee,
                platform_fee,
                platform_fees_receiver: receiver,
                event,
            },
        )
    }

    fn estimate_amount_out(&self, token_in: &Vec<u8>, amount_in: &BigUint, token_out: &Vec<u8>) -> (r:
        Result<BigUint, StablePoolError>)
        ensures
            value_result(r) == spec_estimate_amount_out(self@, token_in@, amount_in@, token_out@),
    {
        if let Err(e) = self.require_not_paused() {
            return Err(e);
        }
        let i = match self.get_token_index(token_in) {
            Ok(i) => i,
            Err(e) => {
                return Err(e);
            },
        };
        let j = match self.get_token_index(token_out) {
            Ok(j) => j,
            Err(e) => {
                return Err(e);
            },
        };
        match self.compute_swap(i, j, amount_in) {
            Ok((out, _lp_fee, _platform_fee)) => Ok(out),
            Err(e) => Err(e),
        }
    }

    fn estimate_add_liquidity(&self, amounts: &Vec<BigUint>) -> (r: Result<BigUint, StablePoolError>)
        ensures
            value_result(r) == spec_estimate_add_liquidity(self@, values_of(amounts@)),
    {
        if let Err(e) = self.require_not_paused() {
            return Err(e);
        }
        self.compute_add_liquidity(amounts)
    }

    fn estimate_remove_liquidity(&self, shares: &BigUint) -> (r: Result<Vec<BigUint>, StablePoolError>)
        ensures
            values_result(r) == spec_remove_liquidity(self@, shares@, true),
    {
        self.compute_remove_liquidity(shares, true)
    }

    fn estimate_remove_liquidity_one_token(&self, shares: &BigUint, token_out: &Vec<u8>) -> (r:
        Result<BigUint, StablePoolError>)
        ensures
            value_result(r) == spec_estimate_remove_liquidity_one_token(self@, shares@, token_out@),
    {
        let i = match self.get_token_index(token_out) {
            Ok(i) => i,
            Err(e) => {
                return Err(e);
            },
        };
        match self.calculate_withdraw_one_token(shares, i) {
            Ok((amount_out, _fee)) => Ok(amount_out),
            Err(e) => Err(e),
        }
    }

    fn get_analytics_for_last_epochs(&self, countback: u64, current_epoch: u64) -> (r: Vec<
        AnalyticsForEpoch,
    >)
        ensures
            r.len() == countback,
            forall|k: int|
                #![trigger r@[k]]
                0 <= k < countback ==> {
                    &&& r@[k].epoch == current_epoch - countback + k
                    &&& values_of(r@[k].volume@) == self@.tokens.map_values(
                        |t: Seq<u8>| self@.trading_volume[(r@[k].epoch, t)],
                    )
                    &&& values_of(r@[k].lp_fees@) == self@.tokens.map_values(
                        |t: Seq<u8>| self@.lp_fees[(r@[k].epoch, t)],
                    )
                },
    {
        let tokens = self.copy_tokens();
        self.do_get_analytics_for_last_epochs(countback, &tokens, current_epoch)
    }

    #[verifier::loop_isolation(false)]
    fn get_status(&self, current_epoch: u64, owner: &Vec<u8>) -> (r: PairStatus)
        ensures
            r.paused == self@.paused,
            r.amp_factor == self@.amp_factor,
            r.nb_tokens == self@.nb_tokens(),
            token_views(r.tokens@) == self@.tokens,
            values_of(r.reserves@) == self@.reserves,
            r.lp_token_identifier@ == self@.lp_token,
            r.lp_token_supply@ == self@.lp_token_supply,
            r.owner@ == owner@,
            r.swap_fee == self@.swap_fee,
            receiver_view(r.platform_fees_receiver) == self@.platform_fees_receiver,
            values_of(r.volume_prev_epoch@) == self@.tokens.map_values(
                |t: Seq<u8>| self@.trading_volume[((current_epoch - 1) as u64, t)],
            ),
            values_of(r.fees_prev_epoch@) == self@.tokens.map_values(
                |t: Seq<u8>| self@.lp_fees[((current_epoch - 1) as u64, t)],
            ),
            values_of(r.fees_last_7_epochs@) == self@.tokens.map_values(
                |t: Seq<u8>| fees_over_epochs(self@.lp_fees, (current_epoch - 1) as u64, t, 7),
            ),
    {
        proof {
            use_type_invariant(self);
        }
        let prev_epoch = current_epoch - 1;
        let tokens = self.copy_tokens();
        let n = tokens.len();
        let mut reserves: Vec<BigUint> = Vec::new();
        let mut volume_prev_epoch: Vec<BigUint> = Vec::new();
        let mut fees_prev_epoch: Vec<BigUint> = Vec::new();
        let mut fees_last_7_epochs: Vec<BigUint> = Vec::new();
        let mut k: usize = 0;
        while k < n
            invariant
                n == tokens.len(),
                n == self.reserves.len(),
                token_views(tokens@) == self@.tokens,
                prev_epoch == current_epoch - 1,
                current_epoch >= 7,
                0 <= k <= n,
                reserves.len() == k,
                volume_prev_epoch.len() == k,
                fees_prev_epoch.len() == k,
                fees_last_7_epochs.len() == k,
                forall|t: int| 0 <= t < k ==> #[trigger] reserves@[t]@ == self@.reserves[t],
                forall|t: int|
                    0 <= t < k ==> #[trigger] volume_prev_epoch@[t]@ == self@.trading_volume[(
                        prev_epoch,
                        self@.tokens[t],
                    )],
                forall|t: int|
                    0 <= t < k ==> #[trigger] fees_prev_epoch@[t]@ == self@.lp_fees[(
                        prev_epoch,
                        self@.tokens[t],
                    )],
                forall|t: int|
                    0 <= t < k ==> #[trigger] fees_last_7_epochs@[t]@ == fees_over_epochs(
                        self@.lp_fees,
                        prev_epoch,
                        self@.tokens[t],
                        7,
                    ),
            decreases n - k,
        {
            proof {
                assert(tokens@[k as int]@ == self@.tokens[k as int]);
            }
            reserves.push(self.reserves[k].clone_value());
            volume_prev_epoch.push(self.trading_volume(prev_epoch, &tokens[k]));
            fees_prev_epoch.push(self.lp_fees(prev_epoch, &tokens[k]));
            let mut sum = BigUint::from_u64(0);
            let mut back: u64 = 0;
            while back < 7
                invariant
                    0 <= back <= 7,
                    prev_epoch == current_epoch - 1,
                    current_epoch >= 7,
                    k < n,
                    n == tokens.len(),
                    token_views(tokens@) == self@.tokens,
                    tokens@[k as int]@ == self@.tokens[k as int],
                    sum@ == fees_over_epochs(self@.lp_fees, prev_epoch, self@.tokens[k as int], back as nat),
                decreases 7 - back,
            {
                let fees = self.lp_fees(prev_epoch - back, &tokens[k]);
                sum = sum.plus(&fees);
                back += 1;
            }
            fees_last_7_epochs.push(sum);
            k += 1;
        }
        proof {
            assert(values_of(reserves@) =~= self@.reserves);
            assert(values_of(volume_prev_epoch@) =~= self@.tokens.map_values(
                |t: Seq<u8>| self@.trading_volume[((current_epoch - 1) as u64, t)],
            ));
            assert(values_of(fees_prev_epoch@) =~= self@.tokens.map_values(
                |t: Seq<u8>| self@.lp_fees[((current_epoch - 1) as u64, t)],
            ));
            assert(values_of(fees_last_7_epochs@) =~= self@.tokens.map_values(
                |t: Seq<u8>| fees_over_epochs(self@.lp_fees, (current_epoch - 1) as u64, t, 7),
            ));
        }
        PairStatus {
            paused: self.paused,
            amp_factor: self.amp_factor,
            nb_tokens: self.nb_tokens,
            tokens,
            reserves,
            lp_token_identifier: self.lp_token.clone(),
            lp_token_supply: self.lp_token_supply.clone_value(),
            owner: owner.clone(),
            swap_fee: self.swap_fee,
            platform_fees_receiver: match &self.platform_fees_receiver {
                Some(a) => Some(a.clone()),
                None => None,
            },
            volume_prev_epoch,
            fees_prev_epoch,
            fees_last_7_epochs,
        }
    }

    fn lp_token_issue_callback(
        &mut self,
        issue_succeeded: bool,
        token: &Option<Vec<u8>>,
        returned_amount: &BigUint,
    ) -> (r: Result<CallbackAction, StablePoolError>)
        ensures
            issue_succeeded && token is Some ==> final(self)@ == old(self)@.with_lp_token(
                token->Some_0@,
            ),
            issue_succeeded && token is Some ==> (match r {
                Ok(CallbackAction::SendEsdt { token: t, amount }) => t@ == token->Some_0@ && amount@
                    == returned_amount@,
                _ => false,
            }),
            issue_succeeded && token is None ==> final(self)@ == old(self)@ && r == Err::<
                CallbackAction,
                StablePoolError,
            >(StablePoolError::EsdtExpected),
            !issue_succeeded ==> final(self)@ == old(self)@,
            !issue_succeeded ==> (match r {
                Ok(CallbackAction::RefundEgld { amount }) => token is None && returned_amount@ > 0
                    && amount@ == returned_amount@,
                Ok(CallbackAction::Nothing) => !(token is None && returned_amount@ > 0),
                _ => false,
            }),
    {
        proof {
            use_type_invariant(&*self);
        }
        if issue_succeeded {
            match token {
                Some(id) => {
                    self.lp_token = id.clone();
                    Ok(CallbackAction::SendEsdt { token: id.clone(), amount: returned_amount.clone_value() })
                },
                None => Err(StablePoolError::EsdtExpected),
            }
        } else {
            match token {
                None => {
                    if BigUint::from_u64(0).less_than(returned_amount) {
                        Ok(CallbackAction::RefundEgld { amount: returned_amount.clone_value() })
                    } else {
                        Ok(CallbackAction::Nothing)
                    }
                },
                Some(_) => Ok(CallbackAction::Nothing),
            }
        }
    }

    fn get_token_index(&self, token: &Vec<u8>) -> (r: Result<usize, StablePoolError>)
        ensures
            index_result(r) == spec_token_index(self@, token@),
    {
        proof {
            use_type_invariant(self);
        }
        let mut k: usize = 0;
        while k < self.nb_tokens
            invariant
                self.nb_tokens == self.tokens.len(),
                self@.wf(),
                0 <= k <= self.nb_tokens,
                forall|t: int| 0 <= t < k ==> self@.tokens[t] != token@,
            decreases self.nb_tokens - k,
        {
            if bytes_eq(&self.tokens[k], token) {
                proof {
                    assert(self@.tokens[k as int] == token@);
                    assert(self@.tokens.contains(token@));
                    let c = self@.tokens.index_of(token@);
                    assert(0 <= c < self@.tokens.len() && self@.tokens[c] == token@);
                    if c != k {
                        if c < k {
                            assert(self@.tokens[c] != self@.tokens[k as int]);
                        } else {
                            assert(self@.tokens[k as int] != self@.tokens[c]);
                        }
                    }
                }
                return Ok(k);
            }
            proof {
                assert(self@.tokens[k as int] == self.tokens@[k as int]@);
            }
            k += 1;
        }
        Err(StablePoolError::InvalidToken)
    }

    fn tokens(&self, i: usize) -> (r: Vec<u8>)
        ensures
            r@ == if i < self@.tokens.len() {
                self@.tokens[i as int]
            } else {
                Seq::empty()
            },
    {
        if i < self.tokens.len() {
            self.tokens[i].clone()
        } else {
            Vec::new()
        }
    }
}

} // verus!
