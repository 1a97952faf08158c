//! The reasons for which the pool refuses an operation.
use crate::biguint::{values_of, BigUint};
use vstd::prelude::*;

verus! {

/// Why an operation was refused. A refused operation leaves the pool as it was.
#[derive(Clone, Copy, Debug, PartialEq, Eq, Structural)]
pub enum StablePoolError {
    /// "Invalid number of tokens": a pool needs at least two tokens.
    InvalidNumberOfTokens,
    /// "Invalid amp factor": the amplification factor must be positive.
    InvalidAmpFactor,
    /// "Tokens must be different".
    TokensMustBeDifferent,
    /// "LP token already issued".
    LpTokenAlreadyIssued,
    /// "LP token not issued".
    LpTokenNotIssued,
    /// "No payment".
    NoPayment,
    /// "Invalid payment token".
    InvalidPaymentToken,
    /// "Max slippage exceeded".
    MaxSlippageExceeded,
    /// "Invalid min amount to receive".
    InvalidMinAmountToReceive,
    /// "Invalid token": the token is not one of the pool's tokens.
    InvalidToken,
    /// "i = j": a swap needs two different tokens.
    SameToken,
    /// "liquidity didn't increase".
    LiquidityDidNotIncrease,
    /// "D didn't converge".
    DDidNotConverge,
    /// "y didn't converge".
    YDidNotConverge,
    /// The contract is paused.
    Paused,
    /// "Unauthorized".
    Unauthorized,
    /// An amount was divided by zero.
    DivisionByZero,
    /// "cannot subtract because result would be negative".
    NegativeSubtraction,
    /// An index past the end of a list of amounts.
    IndexOutOfRange,
    /// A platform fee is due but no receiver of platform fees is configured.
    PlatformFeesReceiverNotSet,
    /// The token received is EGLD where an ESDT was expected.
    EsdtExpected,
    /// "Endpoint can only be called by owner".
    NotOwner,
}

/// The value of an amount that an operation returns, or its error.
pub open spec fn value_result(r: Result<BigUint, StablePoolError>) -> Result<nat, StablePoolError> {
    match r {
        Ok(v) => Ok(v@),
        Err(e) => Err(e),
    }
}

/// The values of a pair of amounts that an operation returns, or its error.
pub open spec fn pair_result(r: Result<(BigUint, BigUint), StablePoolError>) -> Result<
    (nat, nat),
    StablePoolError,
> {
    match r {
        Ok(v) => Ok((v.0@, v.1@)),
        Err(e) => Err(e),
    }
}

/// The values of three amounts that an operation returns, or its error.
pub open spec fn triple_result(r: Result<(BigUint, BigUint, BigUint), StablePoolError>) -> Result<
    (nat, nat, nat),
    StablePoolError,
> {
    match r {
        Ok(v) => Ok((v.0@, v.1@, v.2@)),
        Err(e) => Err(e),
    }
}

/// The values of a list of amounts that an operation returns, or its error.
pub open spec fn values_result(r: Result<Vec<BigUint>, StablePoolError>) -> Result<
    Seq<nat>,
    StablePoolError,
> {
    match r {
        Ok(v) => Ok(values_of(v@)),
        Err(e) => Err(e),
    }
}

/// `r - s`, or the error of subtracting a larger amount.
pub open spec fn sub_or_err(r: nat, s: nat) -> Result<nat, StablePoolError> {
    if s <= r {
        Ok((r - s) as nat)
    } else {
        Err(StablePoolError::NegativeSubtraction)
    }
}

/// `r / s` rounded down, or the error of dividing by zero.
pub open spec fn div_or_err(r: nat, s: nat) -> Result<nat, StablePoolError> {
    if s > 0 {
        Ok(r / s)
    } else {
        Err(StablePoolError::DivisionByZero)
    }
}

} // verus!
