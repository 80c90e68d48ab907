use vstd::prelude::*;

use crate::coins::Coin;
use crate::error::Error;

verus! {

/// Queries that the token factory answers.
#[derive(Debug, PartialEq, Eq)]
pub enum TokenFactoryQuery {
    /// The full denomination of a creator's subdenomination.
    FullDenom { creator_addr: String, subdenom: String },
    /// The admin of a token factory denomination.
    Admin { denom: String },
    /// The metadata of a denomination.
    Metadata { denom: String },
    /// The denominations an account created.
    DenomsByCreator { creator: String },
    /// The module's parameters.
    Params,
}

#[derive(Debug, PartialEq, Eq)]
pub struct FullDenomResponse {
    pub denom: String,
}

#[derive(Debug, PartialEq, Eq)]
pub struct AdminResponse {
    pub admin: String,
}

#[derive(Debug, PartialEq, Eq)]
pub struct MetadataResponse {
    pub metadata: Option<Metadata>,
}

#[derive(Debug, PartialEq, Eq)]
pub struct DenomsByCreatorResponse {
    pub denoms: Vec<String>,
}

/// Descriptive metadata of a denomination.
#[derive(Debug, PartialEq, Eq)]
pub struct Metadata {
    pub description: String,
    /// The units of the coin, the base one with exponent 0.
    pub denom_units: Vec<DenomUnit>,
    pub base: String,
    /// The unit that clients should display.
    pub display: String,
    pub name: String,
    pub symbol: String,
}

/// One unit of a coin: `1 denom = 10^exponent base`.
#[derive(Debug, PartialEq, Eq)]
pub struct DenomUnit {
    pub denom: String,
    pub exponent: u32,
}

/// The token factory's parameters.
#[derive(Debug, PartialEq)]
pub struct Params {
    pub denom_creation_fee: Vec<Coin>,
}

/// Refuses to create a denomination unless its creation is free: this
/// contract holds no funds to pay a fee with.
pub fn assert_free_denom_creation(params: &Params) -> (r: Result<(), Error>)
    ensures
        r is Ok <==> params.denom_creation_fee@.len() == 0,
        r is Err ==> r == Err::<(), Error>(Error::NonZeroTokenCreationFee),
{
    if params.denom_creation_fee.len() != 0 {
        return Err(Error::NonZeroTokenCreationFee);
    }
    Ok(())
}

} // verus!
