//! Arbitrary-precision unsigned amounts.
//!
//! A `BigUint` holds its value as big-endian bytes; its view is the natural
//! number those bytes denote. Every arithmetic operation is carried out by the
//! MultiversX framework's managed `BigUint` (on the off-chain `StaticApi`
//! backend), so the numbers behave exactly as they do in the contract.
use multiversx_sc::types::BigUint as MxBigUint;
use multiversx_sc_scenario::api::StaticApi;
use vstd::prelude::*;

verus! {

/// The natural number denoted by a big-endian byte string (empty = 0).
pub open spec fn be_value(bytes: Seq<u8>) -> nat
    decreases bytes.len(),
{
    if bytes.len() == 0 {
        0
    } else {
        be_value(bytes.drop_last()) * 256 + bytes.last() as nat
    }
}

/// An unsigned integer of unbounded size.
#[derive(Debug)]
pub struct BigUint {
    bytes: Vec<u8>,
}

/// The values of a sequence of amounts.
pub open spec fn values_of(v: Seq<BigUint>) -> Seq<nat> {
    v.map_values(|b: BigUint| b@)
}

impl View for BigUint {
    type V = nat;

    closed spec fn view(&self) -> nat {
        be_value(self.bytes@)
    }
}

impl BigUint {
    /// The number denoted by `bytes`, read big-endian.
    pub fn from_bytes_be(bytes: Vec<u8>) -> (r: BigUint)
        ensures
            r@ == be_value(bytes@),
    {
        BigUint { bytes }
    }

    /// A copy with the same value.
    pub fn clone_value(&self) -> (r: BigUint)
        ensures
            r@ == self@,
    {
        BigUint { bytes: self.bytes.clone() }
    }

    /// The value as big-endian bytes.
    pub fn to_bytes_be(&self) -> (r: Vec<u8>)
        ensures
            be_value(r@) == self@,
    {
        self.bytes.clone()
    }

    /// `BigUint::from(u64)` of the framework: the value `v`. The framework
    /// stores small numbers through `i64` and signals an error ("cast to i64
    /// error") above `i64::MAX`; that input is excluded.
    #[verifier::external_body]
    pub(crate) fn from_u64(v: u64) -> (r: BigUint)
        requires
            v <= i64::MAX,
        ensures
            r@ == v as nat,
    {
        BigUint { bytes: MxBigUint::<StaticApi>::from(v).to_bytes_be().into_vec() }
    }

    /// The framework's `BigUint + BigUint`: the exact sum.
    #[verifier::external_body]
    pub(crate) fn plus(&self, other: &BigUint) -> (r: BigUint)
        ensures
            r@ == self@ + other@,
    {
        let a = MxBigUint::<StaticApi>::from_bytes_be(self.bytes.as_slice());
        let b = MxBigUint::<StaticApi>::from_bytes_be(other.bytes.as_slice());
        BigUint { bytes: (a + b).to_bytes_be().into_vec() }
    }

    /// The framework's `BigUint - BigUint`: the exact difference. The framework
    /// signals an error ("cannot subtract because result would be negative")
    /// when `other` exceeds `self`; that input is excluded.
    #[verifier::external_body]
    pub(crate) fn minus(&self, other: &BigUint) -> (r: BigUint)
        requires
            other@ <= self@,
        ensures
            r@ == self@ - other@,
    {
        let a = MxBigUint::<StaticApi>::from_bytes_be(self.bytes.as_slice());
        let b = MxBigUint::<StaticApi>::from_bytes_be(other.bytes.as_slice());
        BigUint { bytes: (a - b).to_bytes_be().into_vec() }
    }

    /// The framework's `BigUint * BigUint`: the exact product.
    #[verifier::external_body]
    pub(crate) fn times(&self, other: &BigUint) -> (r: BigUint)
        ensures
            r@ == self@ * other@,
    {
        let a = MxBigUint::<StaticApi>::from_bytes_be(self.bytes.as_slice());
        let b = MxBigUint::<StaticApi>::from_bytes_be(other.bytes.as_slice());
        BigUint { bytes: (a * b).to_bytes_be().into_vec() }
    }

    /// The framework's `BigUint / BigUint`: division rounded down (truncated
    /// division of non-negative numbers). Division by zero is an error of the
    /// framework and is excluded.
    #[verifier::external_body]
    pub(crate) fn quotient(&self, other: &BigUint) -> (r: BigUint)
        requires
            other@ > 0,
        ensures
            r@ == self@ / other@,
    {
        let a = MxBigUint::<StaticApi>::from_bytes_be(self.bytes.as_slice());
        let b = MxBigUint::<StaticApi>::from_bytes_be(other.bytes.as_slice());
        BigUint { bytes: (a / b).to_bytes_be().into_vec() }
    }

    /// The framework's `BigUint::pow`: `self` raised to `exp`.
    #[verifier::external_body]
    pub(crate) fn power(&self, exp: u32) -> (r: BigUint)
        ensures
            r@ == vstd::arithmetic::power::pow(self@ as int, exp as nat),
    {
        let a = MxBigUint::<StaticApi>::from_bytes_be(self.bytes.as_slice());
        BigUint { bytes: a.pow(exp).to_bytes_be().into_vec() }
    }

    /// The framework's `<` on `BigUint`: whether `self` is smaller.
    #[verifier::external_body]
    pub(crate) fn less_than(&self, other: &BigUint) -> (r: bool)
        ensures
            r == (self@ < other@),
    {
        let a = MxBigUint::<StaticApi>::from_bytes_be(self.bytes.as_slice());
        let b = MxBigUint::<StaticApi>::from_bytes_be(other.bytes.as_slice());
        a < b
    }

    /// The framework's `==` on `BigUint`: whether the values are equal.
    #[verifier::external_body]
    pub(crate) fn equals(&self, other: &BigUint) -> (r: bool)
        ensures
            r == (self@ == other@),
    {
        let a = MxBigUint::<StaticApi>::from_bytes_be(self.bytes.as_slice());
        let b = MxBigUint::<StaticApi>::from_bytes_be(other.bytes.as_slice());
        a == b
    }
}

} // verus!
