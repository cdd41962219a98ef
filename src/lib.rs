//! An escrow-backed English auction: a seller lists an asset, bidders raise
//! the price with funds held in a vault, and an authorised trigger settles
//! the auction once its deadline has passed.

pub mod state;
pub mod ledger;
pub mod house;
pub mod laws;
