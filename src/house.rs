use vstd::prelude::*;

use crate::ledger::Ledger;
use crate::state::{
    escrow_of, fresh_auction, Auction, AuctionErr, Bid, CloseAuction, CreateAuction,
};

verus! {

/// The auction store together with the custody ledger. An auction's handle
/// is its position in the store, and its vault carries the same number.
pub struct AuctionHouse {
    auctions: Vec<Auction>,
    ledger: Ledger,
}

/// Whether record `i` of `s` is the listing of `asset` by `seller`.
pub open spec fn lists(s: Seq<Auction>, i: int, seller: u64, asset: u64) -> bool {
    0 <= i < s.len() && s[i].seller == seller && s[i].asset == asset
}

/// Whether `s` holds a listing of `asset` by `seller`, open or closed.
pub open spec fn has_listing(s: Seq<Auction>, seller: u64, asset: u64) -> bool {
    exists|i: int| lists(s, i, seller, asset)
}

/// Whether `s` holds an open listing of `asset` by `seller`.
pub open spec fn has_live_listing(s: Seq<Auction>, seller: u64, asset: u64) -> bool {
    exists|i: int| lists(s, i, seller, asset) && s[i].ongoing
}

/// What the wallet of `w` gets back when the leader of `a` is outbid.
pub open spec fn refund_to(a: Auction, w: u64) -> nat {
    if a.bidder == Some(w) {
        a.price as nat
    } else {
        0
    }
}

/// What the wallet of `w` pays into escrow for the bid `b`.
pub open spec fn charge_to(b: Bid, w: u64) -> nat {
    if w == b.bidder {
        b.price as nat
    } else {
        0
    }
}

/// What the wallet of `w` receives when `a` is settled: the seller is paid
/// the winning bid, if there is one.
pub open spec fn payout_to(a: Auction, w: u64) -> nat {
    if a.bidder is Some && w == a.seller {
        a.price as nat
    } else {
        0
    }
}

/// The record after the bid `b` on `a` is accepted.
pub open spec fn outbid(a: Auction, b: Bid) -> Auction {
    Auction { bidder: Some(b.bidder), price: b.price, ..a }
}

/// The record after `a` is settled.
pub open spec fn closed(a: Auction) -> Auction {
    Auction { ongoing: false, ..a }
}

impl AuctionHouse {
    /// The stored auctions, by handle.
    pub closed spec fn auctions(&self) -> Seq<Auction> {
        self.auctions@
    }

    /// Balance of the wallet of `who`.
    pub closed spec fn wallet(&self, who: u64) -> nat {
        self.ledger.wallet(who)
    }

    /// Vault balances, by auction handle.
    pub closed spec fn vaults(&self) -> Seq<u64> {
        self.ledger.vaults()
    }

    /// Every auction has a vault, each vault holds exactly what its auction
    /// escrows, and a seller lists a given asset at most once.
    pub open spec fn wf(&self) -> bool {
        &&& self.vaults().len() == self.auctions().len()
        &&& forall|i: int|
            #![trigger self.auctions()[i]]
            #![trigger self.vaults()[i]]
            0 <= i < self.auctions().len() ==> self.vaults()[i] == escrow_of(self.auctions()[i])
        &&& forall|i: int, j: int|
            0 <= i < self.auctions().len() && lists(
                self.auctions(),
                j,
                self.auctions()[i].seller,
                self.auctions()[i].asset,
            ) ==> i == j
    }

    /// What placing the bid `b` returns.
    pub open spec fn bid_outcome(&self, b: Bid) -> Result<(), AuctionErr> {
        if b.auction >= self.auctions().len() {
            Err(AuctionErr::NotFound)
        } else {
            let a = self.auctions()[b.auction as int];
            if !a.ongoing || b.now >= a.end_time {
                Err(AuctionErr::AuctionEnded)
            } else if b.price <= a.price {
                Err(AuctionErr::BidTooLow)
            } else if self.wallet(b.bidder) + refund_to(a, b.bidder) < b.price {
                Err(AuctionErr::InsufficientFunds)
            } else if a.bidder is Some && a.bidder->0 != b.bidder && self.wallet(a.bidder->0)
                + a.price > u64::MAX {
                Err(AuctionErr::BalanceOverflow)
            } else {
                Ok(())
            }
        }
    }

    /// How an accepted bid `b` takes `self` to `next`: the record names the
    /// new leader and price, the vault holds the new bid, the displaced
    /// leader is refunded in full and the bidder is charged in full.
    pub open spec fn bid_effect(&self, b: Bid, next: AuctionHouse) -> bool {
        let a = self.auctions()[b.auction as int];
        &&& next.auctions() == self.auctions().update(b.auction as int, outbid(a, b))
        &&& next.vaults() == self.vaults().update(b.auction as int, b.price)
        &&& forall|w: u64|
            #[trigger] next.wallet(w) + charge_to(b, w) == self.wallet(w) + refund_to(a, w)
    }

    /// What settling on the request `c` returns.
    pub open spec fn settle_outcome(&self, c: CloseAuction) -> Result<(), AuctionErr> {
        if c.auction >= self.auctions().len() {
            Err(AuctionErr::NotFound)
        } else {
            let a = self.auctions()[c.auction as int];
            if c.caller != a.trigger || c.now < a.end_time {
                Err(AuctionErr::Unauthorized)
            } else if !a.ongoing {
                Err(AuctionErr::AlreadySettled)
            } else if a.bidder is Some && self.wallet(a.seller) + a.price > u64::MAX {
                Err(AuctionErr::BalanceOverflow)
            } else {
                Ok(())
            }
        }
    }

    /// How a successful settlement `c` takes `self` to `next`: the auction is
    /// closed, its vault emptied, and the seller paid the winning bid.
    pub open spec fn settle_effect(&self, c: CloseAuction, next: AuctionHouse) -> bool {
        let a = self.auctions()[c.auction as int];
        &&& next.auctions() == self.auctions().update(c.auction as int, closed(a))
        &&& next.vaults() == self.vaults().update(c.auction as int, 0)
        &&& forall|w: u64| #[trigger] next.wallet(w) == self.wallet(w) + payout_to(a, w)
    }

    /// An empty store with an empty ledger.
    pub fn new() -> (r: AuctionHouse)
        ensures
            r.wf(),
            r.auctions() == Seq::<Auction>::empty(),
            forall|w: u64| r.wallet(w) == 0,
    {
        AuctionHouse { auctions: Vec::new(), ledger: Ledger::new() }
    }

    /// Number of auctions stored.
    pub fn auction_count(&self) -> (r: usize)
        ensures
            r == self.auctions().len(),
    {
        self.auctions.len()
    }

    /// The auction with handle `id`.
    pub fn get_auction(&self, id: usize) -> (r: Result<Auction, AuctionErr>)
        ensures
            id < self.auctions().len() ==> r == Ok::<Auction, AuctionErr>(self.auctions()[id as int]),
            id >= self.auctions().len() ==> r == Err::<Auction, AuctionErr>(AuctionErr::NotFound),
    {
        if id < self.auctions.len() {
            Ok(self.auctions[id])
        } else {
            Err(AuctionErr::NotFound)
        }
    }

    /// What the vault of the auction with handle `id` holds.
    pub fn vault_balance(&self, id: usize) -> (r: Result<u64, AuctionErr>)
        requires
            self.wf(),
        ensures
            id < self.auctions().len() ==> r == Ok::<u64, AuctionErr>(self.vaults()[id as int]),
            id >= self.auctions().len() ==> r == Err::<u64, AuctionErr>(AuctionErr::NotFound),
    {
        if id < self.auctions.len() {
            Ok(self.ledger.vault_balance(id))
        } else {
            Err(AuctionErr::NotFound)
        }
    }

    /// What the wallet of `who` holds.
    pub fn balance_of(&self, who: u64) -> (r: u64)
        ensures
            r == self.wallet(who),
    {
        self.ledger.balance_of(who)
    }

    /// Adds `amount` to the wallet of `who`, unless the balance would overflow.
    pub fn deposit(&mut self, who: u64, amount: u64) -> (r: Result<(), AuctionErr>)
        requires
            old(self).wf(),
        ensures
            final(self).wf(),
            r is Err <==> old(self).wallet(who) + amount > u64::MAX,
            r matches Err(e) ==> e == AuctionErr::BalanceOverflow && *final(self) == *old(self),
            r is Ok ==> final(self).wallet(who) == old(self).wallet(who) + amount,
            forall|w: u64| w != who ==> final(self).wallet(w) == old(self).wallet(w),
            final(self).auctions() == old(self).auctions(),
            final(self).vaults() == old(self).vaults(),
    {
        self.ledger.deposit(who, amount)
    }

    /// Takes `amount` out of the wallet of `who`, unless it holds less.
    pub fn withdraw(&mut self, who: u64, amount: u64) -> (r: Result<(), AuctionErr>)
        requires
            old(self).wf(),
        ensures
            final(self).wf(),
            r is Err <==> old(self).wallet(who) < amount,
            r matches Err(e) ==> e == AuctionErr::InsufficientFunds && *final(self) == *old(self),
            r is Ok ==> final(self).wallet(who) == old(self).wallet(who) - amount,
            forall|w: u64| w != who ==> final(self).wallet(w) == old(self).wallet(w),
            final(self).auctions() == old(self).auctions(),
            final(self).vaults() == old(self).vaults(),
    {
        self.ledger.withdraw(who, amount)
    }

    /// Whether the auction with handle `id` is open and its deadline has
    /// passed at time `now`, so that the trigger may settle it.
    pub fn is_settlable(&self, id: usize, now: i64) -> (r: bool)
        ensures
            r == (id < self.auctions().len() && self.auctions()[id as int].ongoing && now
                >= self.auctions()[id as int].end_time),
    {
        id < self.auctions.len() && self.auctions[id].ongoing && now >= self.auctions[id].end_time
    }

    /// The handle of the listing of `asset` by `seller`, if there is one.
    fn find_listing(&self, seller: u64, asset: u64) -> (r: Option<usize>)
        ensures
            r matches Some(i) ==> lists(self.auctions(), i as int, seller, asset),
            r is None ==> !has_listing(self.auctions(), seller, asset),
    {
        let mut i: usize = 0;
        while i < self.auctions.len()
            invariant
                i <= self.auctions@.len(),
                forall|k: int| 0 <= k < i ==> !lists(self.auctions@, k, seller, asset),
            decreases self.auctions@.len() - i,
        {
            if self.auctions[i].seller == seller && self.auctions[i].asset == asset {
                return Some(i);
            }
            i += 1;
        }
        None
    }
}

/// Replacing record `i` by one for the same seller and asset, with its vault
/// set to what the new record escrows, keeps the store well formed.
proof fn lemma_wf_replace(before: AuctionHouse, after: AuctionHouse, i: int, rec: Auction)
    requires
        before.wf(),
        0 <= i < before.auctions().len(),
        rec.seller == before.auctions()[i].seller,
        rec.asset == before.auctions()[i].asset,
        after.auctions() == before.auctions().update(i, rec),
        after.vaults() == before.vaults().update(i, escrow_of(rec) as u64),
    ensures
        after.wf(),
{
    assert forall|k: int, j: int|
        0 <= k < after.auctions().len() && lists(
            after.auctions(),
            j,
            after.auctions()[k].seller,
            after.auctions()[k].asset,
        ) implies k == j by {
        assert(lists(before.auctions(), j, before.auctions()[k].seller, before.auctions()[k].asset));
    }
}

/// Adding a record for a pair not yet listed, with an empty vault, keeps the
/// store well formed.
proof fn lemma_wf_push(before: AuctionHouse, after: AuctionHouse, rec: Auction)
    requires
        before.wf(),
        !has_listing(before.auctions(), rec.seller, rec.asset),
        escrow_of(rec) == 0,
        after.auctions() == before.auctions().push(rec),
        after.vaults() == before.vaults().push(0),
    ensures
        after.wf(),
{
    let n = before.auctions().len() as int;
    assert forall|k: int, j: int|
        0 <= k < after.auctions().len() && lists(
            after.auctions(),
            j,
            after.auctions()[k].seller,
            after.auctions()[k].asset,
        ) implies k == j by {
        if k < n && j < n {
            assert(lists(before.auctions(), j, before.auctions()[k].seller, before.auctions()[k].asset));
        } else if k < n {
            assert(lists(before.auctions(), k, rec.seller, rec.asset));
        } else if j < n {
            assert(lists(before.auctions(), j, rec.seller, rec.asset));
        }
    }
}

/// Places the bid `ctx`. An accepted bid first refunds the displaced leader
/// from the vault, then escrows the full new bid, and makes the bidder the
/// leader at the new price; a leader who raises their own bid pays only the
/// difference. Every rejection is decided before anything moves, so a
/// rejected bid changes nothing.
pub fn bid(house: &mut AuctionHouse, ctx: Bid) -> (r: Result<(), AuctionErr>)
    requires
        old(house).wf(),
    ensures
        final(house).wf(),
        r == old(house).bid_outcome(ctx),
        r is Ok ==> old(house).bid_effect(ctx, *final(house)),
        r is Err ==> *final(house) == *old(house),
{
    let id = ctx.auction;
    if id >= house.auctions.len() {
        return Err(AuctionErr::NotFound);
    }
    let a = house.auctions[id];
    if !a.ongoing || ctx.now >= a.end_time {
        return Err(AuctionErr::AuctionEnded);
    }
    if ctx.price <= a.price {
        return Err(AuctionErr::BidTooLow);
    }
    let funds = house.ledger.balance_of(ctx.bidder);
    match a.bidder {
        None => {
            if funds < ctx.price {
                return Err(AuctionErr::InsufficientFunds);
            }
            house.ledger.move_to_vault(ctx.bidder, id, ctx.price);
        },
        Some(leader) => {
            if leader == ctx.bidder {
                if funds < ctx.price - a.price {
                    return Err(AuctionErr::InsufficientFunds);
                }
                house.ledger.move_to_vault(ctx.bidder, id, ctx.price - a.price);
            } else {
                if funds < ctx.price {
                    return Err(AuctionErr::InsufficientFunds);
                }
                if house.ledger.balance_of(leader) > u64::MAX - a.price {
                    return Err(AuctionErr::BalanceOverflow);
                }
                house.ledger.release_vault(id, leader, a.price);
                house.ledger.move_to_vault(ctx.bidder, id, ctx.price);
            }
        },
    }
    house.auctions.set(id, Auction { bidder: Some(ctx.bidder), price: ctx.price, ..a });
    proof {
        assert(house.vaults() =~= old(house).vaults().update(id as int, ctx.price));
        assert(house.auctions() =~= old(house).auctions().update(id as int, outbid(a, ctx)));
        lemma_wf_replace(*old(house), *house, id as int, outbid(a, ctx));
    }
    Ok(())
}

/// Settles the auction named by `ctx`. Only its trigger may settle it, and
/// only once its deadline has passed; it settles once. The vault is emptied
/// into the seller's wallet (an auction without bids pays nothing), and the
/// auction closes for good, its last leader standing as the winner.
pub fn close_auction(house: &mut AuctionHouse, ctx: CloseAuction) -> (r: Result<(), AuctionErr>)
    requires
        old(house).wf(),
    ensures
        final(house).wf(),
        r == old(house).settle_outcome(ctx),
        r is Ok ==> old(house).settle_effect(ctx, *final(house)),
        r is Err ==> *final(house) == *old(house),
{
    let id = ctx.auction;
    if id >= house.auctions.len() {
        return Err(AuctionErr::NotFound);
    }
    let a = house.auctions[id];
    if ctx.caller != a.trigger || ctx.now < a.end_time {
        return Err(AuctionErr::Unauthorized);
    }
    if !a.ongoing {
        return Err(AuctionErr::AlreadySettled);
    }
    if a.bidder.is_some() {
        if house.ledger.balance_of(a.seller) > u64::MAX - a.price {
            return Err(AuctionErr::BalanceOverflow);
        }
        house.ledger.release_vault(id, a.seller, a.price);
    }
    house.auctions.set(id, Auction { ongoing: false, ..a });
    proof {
        assert(house.vaults() =~= old(house).vaults().update(id as int, 0));
        assert(house.auctions() =~= old(house).auctions().update(id as int, closed(a)));
        lemma_wf_replace(*old(house), *house, id as int, closed(a));
    }
    Ok(())
}

/// Lists an asset. A seller with an open auction for the asset is refused;
/// a closed listing of the same pair is reopened in place under its handle;
/// otherwise a new auction and an empty vault are added at the next handle.
/// The new auction is open at the start price, with no bidder.
pub fn create_auction(house: &mut AuctionHouse, ctx: CreateAuction) -> (r: Result<usize, AuctionErr>)
    requires
        old(house).wf(),
        old(house).auctions().len() < usize::MAX,
    ensures
        final(house).wf(),
        r is Err <==> has_live_listing(old(house).auctions(), ctx.seller, ctx.asset),
        r matches Err(e) ==> e == AuctionErr::AlreadyActive && *final(house) == *old(house),
        r matches Ok(id) ==> {
            &&& id <= old(house).auctions().len()
            &&& (id < old(house).auctions().len()) == has_listing(
                old(house).auctions(),
                ctx.seller,
                ctx.asset,
            )
            &&& id < old(house).auctions().len() ==> {
                &&& lists(old(house).auctions(), id as int, ctx.seller, ctx.asset)
                &&& final(house).auctions() == old(house).auctions().update(
                    id as int,
                    fresh_auction(ctx),
                )
                &&& final(house).vaults() == old(house).vaults()
            }
            &&& id == old(house).auctions().len() ==> {
                &&& final(house).auctions() == old(house).auctions().push(fresh_auction(ctx))
                &&& final(house).vaults() == old(house).vaults().push(0)
            }
            &&& forall|w: u64| final(house).wallet(w) == old(house).wallet(w)
        },
{
    let record = Auction {
        ongoing: true,
        seller: ctx.seller,
        asset: ctx.asset,
        bidder: None,
        price: ctx.start_price,
        end_time: ctx.end_time,
        trigger: ctx.trigger,
    };
    match house.find_listing(ctx.seller, ctx.asset) {
        Some(id) => {
            if house.auctions[id].ongoing {
                return Err(AuctionErr::AlreadyActive);
            }
            house.auctions.set(id, record);
            proof {
                assert(house.auctions() =~= old(house).auctions().update(id as int, record));
                assert(old(house).vaults()[id as int] == 0);
                assert(house.vaults() =~= old(house).vaults().update(id as int, 0));
                lemma_wf_replace(*old(house), *house, id as int, record);
            }
            Ok(id)
        },
        None => {
            let id = house.ledger.open_vault();
            house.auctions.push(record);
            proof {
                lemma_wf_push(*old(house), *house, record);
            }
            Ok(id)
        },
    }
}

} // verus!
