//! Interchain account protocol core: coin ledger, token provenance, account
//! registry, action-queue execution engine and packet lifecycle decisions.

mod order;
mod table;
pub mod coins;
pub mod controller;
pub mod denom;
pub mod error;
pub mod handler;
pub mod handshake;
pub mod registry;
pub mod token_factory;
pub mod trace;
pub mod types;

pub use coins::{Coin, Coins};
pub use denom::{construct_denom, deconstruct_denom};
pub use error::{Error, Order};
