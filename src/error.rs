use vstd::prelude::*;

use crate::coins::Coins;
use crate::types::Endpoint;

verus! {

/// Delivery order of a channel's packets.
#[derive(Debug, PartialEq, Eq, Structural, Clone, Copy)]
pub enum Order {
    Ordered,
    Unordered,
}

/// What can go wrong in the library's operations.
#[allow(inconsistent_fields)]
#[derive(Debug, PartialEq)]
pub enum Error {
    /// A sum of amounts does not fit in 128 bits.
    Overflow,
    /// The account template's checksum or the salt has a length that address
    /// derivation refuses.
    Instantiate2Address,
    /// A sub-call's reply is not a well-formed response.
    ParseReply,
    /// A query of the interchain account failed.
    QueryContract(String),
    /// A request holds no action.
    EmptyActionQueue,
    /// A custom factory's reply does not carry the address it registered.
    FactoryResponseDataMissing,
    /// The token factory asks a fee for creating a denomination.
    NonZeroTokenCreationFee,
    /// The caller may not invoke this operation.
    Unauthorized,
    /// This side may not close a channel.
    UnexpectedChannelClosure,
    /// A transfer names a denomination whose trace the packet does not carry.
    TraceNotFound { denom: String },
    /// The funds attached differ from those the transfers need.
    FundsMismatch { actual: Coins, expected: Coins },
    /// A channel's order is not the protocol's.
    IncorrectOrder { actual: Order, expected: Order },
    /// A channel's version is not the protocol's.
    IncorrectVersion { actual: String, expected: String },
    /// The connection already has an active channel.
    ChannelExists { connection_id: String },
    /// The controller already has an interchain account at this endpoint.
    AccountExists { endpoint: Endpoint, controller: String },
    /// The controller has no interchain account at this endpoint.
    AccountNotFound { endpoint: Endpoint, controller: String },
    /// The connection has no active channel.
    ChannelNotFound { connection_id: String },
}

} // verus!
