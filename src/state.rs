use vstd::prelude::*;

verus! {

/// Every way an auction or ledger operation can be rejected.
#[derive(PartialEq, Eq, Structural, Clone, Copy, Debug)]
pub enum AuctionErr {
    /// The seller already has a live auction for this asset.
    AlreadyActive,
    /// No auction is stored under the given handle.
    NotFound,
    /// The offer does not exceed the current price.
    BidTooLow,
    /// The auction is closed or its deadline has passed.
    AuctionEnded,
    /// The caller may not settle this auction (wrong identity, or too early).
    Unauthorized,
    /// The auction was already settled.
    AlreadySettled,
    /// A wallet holds less than the amount to move out of it.
    InsufficientFunds,
    /// A credit would take a balance past `u64::MAX`.
    BalanceOverflow,
}

} // verus!

verus! {

/// The record of one auction. Identities (seller, asset, bidder, trigger) are
/// opaque keys; `bidder` is `None` until the first bid is accepted.
#[derive(PartialEq, Eq, Structural, Clone, Copy, Debug)]
pub struct Auction {
    pub ongoing: bool,
    pub seller: u64,
    pub asset: u64,
    pub bidder: Option<u64>,
    pub price: u64,
    pub end_time: i64,
    /// The only identity allowed to settle the auction.
    pub trigger: u64,
}

/// A seller's request to list an asset.
#[derive(PartialEq, Eq, Structural, Clone, Copy, Debug)]
pub struct CreateAuction {
    pub seller: u64,
    pub asset: u64,
    pub start_price: u64,
    pub end_time: i64,
    pub trigger: u64,
}

/// A bidder's offer of `price` on the auction with handle `auction`, made at
/// time `now`.
#[derive(PartialEq, Eq, Structural, Clone, Copy, Debug)]
pub struct Bid {
    pub auction: usize,
    pub bidder: u64,
    pub price: u64,
    pub now: i64,
}

/// A request by `caller`, at time `now`, to settle the auction with handle
/// `auction`.
#[derive(PartialEq, Eq, Structural, Clone, Copy, Debug)]
pub struct CloseAuction {
    pub auction: usize,
    pub caller: u64,
    pub now: i64,
}

/// The record a creation request produces: open, at the start price, no bidder.
pub open spec fn fresh_auction(c: CreateAuction) -> Auction {
    Auction {
        ongoing: true,
        seller: c.seller,
        asset: c.asset,
        bidder: None,
        price: c.start_price,
        end_time: c.end_time,
        trigger: c.trigger,
    }
}

/// What the vault of an auction must hold: the leading bid while the auction
/// is open and has a bidder, and nothing otherwise.
pub open spec fn escrow_of(a: Auction) -> nat {
    if a.ongoing && a.bidder is Some {
        a.price as nat
    } else {
        0
    }
}

} // verus!
