//! A stable-swap automated market maker ("StableSwap", as in Curve pools):
//! the pool state, its invariant, and every operation of the contract as a
//! verified state transition.
use vstd::prelude::*;

pub mod access_control;
pub mod amm;
pub mod analytics;
pub mod biguint;
pub mod contract;
pub mod errors;
pub mod events;
pub mod fees;
pub mod laws;
pub mod liquidity;
pub mod maths;
pub mod pausable;
pub mod price_source_mock;
pub mod tokens;

pub use access_control::{address_set, AccessControlModule};
pub use amm::AmmModule;
pub use analytics::{analytics_map, AnalyticsForEpoch, AnalyticsModule, EpochTokenAmount};
pub use biguint::BigUint;
pub use contract::{
    require_owner, CallbackAction, EsdtLocalRole, EsdtTokenPayment, JexScStablepoolContract,
    LpTokenIssuance, PairStatus, SpecialRoles,
    SwapOutcome,
};
pub use errors::StablePoolError;
pub use events::{EventsModule, SwapEvent};
pub use fees::FeesModule;
pub use liquidity::LiquidityModule;
pub use maths::MathsModule;
pub use pausable::PausableModule;
pub use price_source_mock::{PriceSourceMock, UnderlyingPriceSourceMock};

use biguint::values_of;

verus! {

/// The state of a pool: what the contract keeps in storage.
pub struct StablePool {
    pub(crate) paused: bool,
    pub(crate) amp_factor: u32,
    pub(crate) nb_tokens: usize,
    pub(crate) tokens: Vec<Vec<u8>>,
    pub(crate) multipliers: Vec<BigUint>,
    pub(crate) reserves: Vec<BigUint>,
    pub(crate) lp_token: Vec<u8>,
    pub(crate) lp_token_supply: BigUint,
    pub(crate) swap_fee: u32,
    pub(crate) liquidity_fee: u32,
    pub(crate) platform_fees_receiver: Option<Vec<u8>>,
    pub(crate) lp_fees: Vec<EpochTokenAmount>,
    pub(crate) trading_volume: Vec<EpochTokenAmount>,
    pub(crate) ac_enabled: bool,
    pub(crate) allowed_scs: Vec<Vec<u8>>,
}

/// The state of a pool as mathematical values.
pub struct PoolModel {
    /// Whether swaps and deposits are suspended.
    pub paused: bool,
    /// The amplification factor `A`.
    pub amp_factor: nat,
    /// The identifiers of the pool's tokens, in order.
    pub tokens: Seq<Seq<u8>>,
    /// Per token, the factor that brings its amounts to a common precision.
    pub multipliers: Seq<nat>,
    /// Per token, the amount the pool holds.
    pub reserves: Seq<nat>,
    /// The identifier of the LP (share) token; empty until issued.
    pub lp_token: Seq<u8>,
    /// The number of shares in circulation.
    pub lp_token_supply: nat,
    /// The swap fee, in millionths.
    pub swap_fee: nat,
    /// The fee on imbalanced deposits and withdrawals, in millionths.
    pub liquidity_fee: nat,
    /// The account that receives the platform fees, once set.
    pub platform_fees_receiver: Option<Seq<u8>>,
    /// The LP fees collected, per epoch and token.
    pub lp_fees: Map<(u64, Seq<u8>), nat>,
    /// The amounts swapped, per epoch and token.
    pub trading_volume: Map<(u64, Seq<u8>), nat>,
    /// Whether smart-contract callers are filtered.
    pub ac_enabled: bool,
    /// The smart contracts allowed to call when filtering is on.
    pub allowed_scs: Set<Seq<u8>>,
}

/// The byte strings of a list of token identifiers.
pub open spec fn token_views(v: Seq<Vec<u8>>) -> Seq<Seq<u8>> {
    v.map_values(|t: Vec<u8>| t@)
}

/// The receiver of platform fees, as bytes.
pub open spec fn receiver_view(r: Option<Vec<u8>>) -> Option<Seq<u8>> {
    match r {
        Some(a) => Some(a@),
        None => None,
    }
}

impl PoolModel {
    /// Two or more tokens, all different, one multiplier and one reserve per
    /// token, and a positive amplification factor.
    pub open spec fn wf(self) -> bool {
        &&& self.tokens.len() >= 2
        &&& self.multipliers.len() == self.tokens.len()
        &&& self.reserves.len() == self.tokens.len()
        &&& self.amp_factor > 0
        &&& forall|i: int, j: int|
            0 <= i < j < self.tokens.len() ==> self.tokens[i] != self.tokens[j]
    }

    /// The number of tokens of the pool.
    pub open spec fn nb_tokens(self) -> nat {
        self.tokens.len()
    }

    /// The same state with another receiver of platform fees.
    pub open spec fn with_fees_receiver(self, receiver: Seq<u8>) -> PoolModel {
        PoolModel {
            paused: self.paused,
            amp_factor: self.amp_factor,
            tokens: self.tokens,
            multipliers: self.multipliers,
            reserves: self.reserves,
            lp_token: self.lp_token,
            lp_token_supply: self.lp_token_supply,
            swap_fee: self.swap_fee,
            liquidity_fee: self.liquidity_fee,
            platform_fees_receiver: Some(receiver),
            lp_fees: self.lp_fees,
            trading_volume: self.trading_volume,
            ac_enabled: self.ac_enabled,
            allowed_scs: self.allowed_scs,
        }
    }

    /// The same state with other swap and liquidity fees.
    pub open spec fn with_fees(self, swap_fee: nat, liquidity_fee: nat) -> PoolModel {
        PoolModel {
            paused: self.paused,
            amp_factor: self.amp_factor,
            tokens: self.tokens,
            multipliers: self.multipliers,
            reserves: self.reserves,
            lp_token: self.lp_token,
            lp_token_supply: self.lp_token_supply,
            swap_fee: swap_fee,
            liquidity_fee: liquidity_fee,
            platform_fees_receiver: self.platform_fees_receiver,
            lp_fees: self.lp_fees,
            trading_volume: self.trading_volume,
            ac_enabled: self.ac_enabled,
            allowed_scs: self.allowed_scs,
        }
    }

    /// The same state with other reserves and share supply.
    pub open spec fn with_reserves_supply(self, reserves: Seq<nat>, lp_token_supply: nat) -> PoolModel {
        PoolModel {
            paused: self.paused,
            amp_factor: self.amp_factor,
            tokens: self.tokens,
            multipliers: self.multipliers,
            reserves: reserves,
            lp_token: self.lp_token,
            lp_token_supply: lp_token_supply,
            swap_fee: self.swap_fee,
            liquidity_fee: self.liquidity_fee,
            platform_fees_receiver: self.platform_fees_receiver,
            lp_fees: self.lp_fees,
            trading_volume: self.trading_volume,
            ac_enabled: self.ac_enabled,
            allowed_scs: self.allowed_scs,
        }
    }

    /// The same state with another pause flag.
    pub open spec fn with_paused(self, paused: bool) -> PoolModel {
        PoolModel {
            paused: paused,
            amp_factor: self.amp_factor,
            tokens: self.tokens,
            multipliers: self.multipliers,
            reserves: self.reserves,
            lp_token: self.lp_token,
            lp_token_supply: self.lp_token_supply,
            swap_fee: self.swap_fee,
            liquidity_fee: self.liquidity_fee,
            platform_fees_receiver: self.platform_fees_receiver,
            lp_fees: self.lp_fees,
            trading_volume: self.trading_volume,
            ac_enabled: self.ac_enabled,
            allowed_scs: self.allowed_scs,
        }
    }

    /// The same state with another LP token identifier.
    pub open spec fn with_lp_token(self, lp_token: Seq<u8>) -> PoolModel {
        PoolModel {
            paused: self.paused,
            amp_factor: self.amp_factor,
            tokens: self.tokens,
            multipliers: self.multipliers,
            reserves: self.reserves,
            lp_token: lp_token,
            lp_token_supply: self.lp_token_supply,
            swap_fee: self.swap_fee,
            liquidity_fee: self.liquidity_fee,
            platform_fees_receiver: self.platform_fees_receiver,
            lp_fees: self.lp_fees,
            trading_volume: self.trading_volume,
            ac_enabled: self.ac_enabled,
            allowed_scs: self.allowed_scs,
        }
    }

    /// The same state with other LP fee statistics.
    pub open spec fn with_lp_fees(self, lp_fees: Map<(u64, Seq<u8>), nat>) -> PoolModel {
        PoolModel {
            paused: self.paused,
            amp_factor: self.amp_factor,
            tokens: self.tokens,
            multipliers: self.multipliers,
            reserves: self.reserves,
            lp_token: self.lp_token,
            lp_token_supply: self.lp_token_supply,
            swap_fee: self.swap_fee,
            liquidity_fee: self.liquidity_fee,
            platform_fees_receiver: self.platform_fees_receiver,
            lp_fees: lp_fees,
            trading_volume: self.trading_volume,
            ac_enabled: self.ac_enabled,
            allowed_scs: self.allowed_scs,
        }
    }

    /// The same state with other volume statistics.
    pub open spec fn with_trading_volume(self, trading_volume: Map<(u64, Seq<u8>), nat>) -> PoolModel {
        PoolModel {
            paused: self.paused,
            amp_factor: self.amp_factor,
            tokens: self.tokens,
            multipliers: self.multipliers,
            reserves: self.reserves,
            lp_token: self.lp_token,
            lp_token_supply: self.lp_token_supply,
            swap_fee: self.swap_fee,
            liquidity_fee: self.liquidity_fee,
            platform_fees_receiver: self.platform_fees_receiver,
            lp_fees: self.lp_fees,
            trading_volume: trading_volume,
            ac_enabled: self.ac_enabled,
            allowed_scs: self.allowed_scs,
        }
    }

    /// The same state with other access-control settings.
    pub open spec fn with_access_control(self, ac_enabled: bool, allowed_scs: Set<Seq<u8>>) -> PoolModel {
        PoolModel {
            paused: self.paused,
            amp_factor: self.amp_factor,
            tokens: self.tokens,
            multipliers: self.multipliers,
            reserves: self.reserves,
            lp_token: self.lp_token,
            lp_token_supply: self.lp_token_supply,
            swap_fee: self.swap_fee,
            liquidity_fee: self.liquidity_fee,
            platform_fees_receiver: self.platform_fees_receiver,
            lp_fees: self.lp_fees,
            trading_volume: self.trading_volume,
            ac_enabled: ac_enabled,
            allowed_scs: allowed_scs,
        }
    }

}

impl View for StablePool {
    type V = PoolModel;

    closed spec fn view(&self) -> PoolModel {
        PoolModel {
            paused: self.paused,
            amp_factor: self.amp_factor as nat,
            tokens: token_views(self.tokens@),
            multipliers: values_of(self.multipliers@),
            reserves: values_of(self.reserves@),
            lp_token: self.lp_token@,
            lp_token_supply: self.lp_token_supply@,
            swap_fee: self.swap_fee as nat,
            liquidity_fee: self.liquidity_fee as nat,
            platform_fees_receiver: receiver_view(self.platform_fees_receiver),
            lp_fees: analytics_map(self.lp_fees@),
            trading_volume: analytics_map(self.trading_volume@),
            ac_enabled: self.ac_enabled,
            allowed_scs: address_set(self.allowed_scs@),
        }
    }
}

impl StablePool {
    /// Every pool is well formed: at least two tokens, one multiplier and
    /// one reserve per token, and the other facts of `PoolModel::wf`.
    pub fn well_formed(&self)
        ensures
            self@.wf(),
    {
        proof {
            use_type_invariant(self);
        }
    }

    #[verifier::type_invariant]
    spec fn inv(self) -> bool {
        &&& self@.wf()
        &&& self.nb_tokens == self.tokens.len()
        &&& self.tokens.len() <= i64::MAX
    }
}

} // verus!
