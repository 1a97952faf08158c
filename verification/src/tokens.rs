//! Token identifiers and account addresses, held as byte strings.
use multiversx_sc::types::TokenIdentifier;
use multiversx_sc_scenario::api::StaticApi;
use vstd::prelude::*;

verus! {

/// Whether two byte strings (token identifiers or addresses) are equal.
pub fn bytes_eq(a: &Vec<u8>, b: &Vec<u8>) -> (r: bool)
    ensures
        r == (a@ == b@),
{
    if a.len() != b.len() {
        return false;
    }
    let mut k: usize = 0;
    while k < a.len()
        invariant
            a.len() == b.len(),
            0 <= k <= a.len(),
            forall|m: int| 0 <= m < k ==> a@[m] == b@[m],
        decreases a.len() - k,
    {
        if a[k] != b[k] {
            return false;
        }
        k += 1;
    }
    assert(a@ =~= b@);
    true
}

/// An upper-case letter or a digit.
pub open spec fn is_ticker_char(c: u8) -> bool {
    (65 <= c <= 90) || (48 <= c <= 57)
}

/// A lower-case letter or a digit.
pub open spec fn is_random_char(c: u8) -> bool {
    (97 <= c <= 122) || (48 <= c <= 57)
}

/// An ESDT token identifier: a ticker of 3 to 10 upper-case letters or
/// digits, a dash, and 6 lower-case letters or digits (e.g. `USDC-c76f1f`).
pub open spec fn valid_esdt_identifier(id: Seq<u8>) -> bool {
    &&& 10 <= id.len() <= 17
    &&& forall|k: int| 0 <= k < id.len() - 7 ==> is_ticker_char(#[trigger] id[k])
    &&& id[id.len() - 7] == 45
    &&& forall|k: int| id.len() - 6 <= k < id.len() ==> is_random_char(#[trigger] id[k])
}

/// `TokenIdentifier::is_valid_esdt_identifier` of the framework, which checks
/// the identifier against the ESDT format described by `valid_esdt_identifier`
/// (its `token_identifier_util::validate_token_identifier`).
#[verifier::external_body]
pub(crate) fn is_valid_esdt_identifier(id: &Vec<u8>) -> (r: bool)
    ensures
        r == valid_esdt_identifier(id@),
{
    TokenIdentifier::<StaticApi>::from(id.as_slice()).is_valid_esdt_identifier()
}

} // verus!
