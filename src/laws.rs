use vstd::prelude::*;

use crate::house::{charge_to, closed, refund_to, AuctionHouse};
use crate::state::{escrow_of, AuctionErr, Bid, CloseAuction};

verus! {

/// Along any run of accepted bids on one auction, the price after each bid
/// is strictly higher than at every earlier point of the run.
pub proof fn lemma_accepted_bids_raise_price(hs: Seq<AuctionHouse>, bs: Seq<Bid>, id: int)
    requires
        hs.len() == bs.len() + 1,
        0 <= id < hs[0].auctions().len(),
        forall|k: int| 0 <= k < bs.len() ==> #[trigger] bs[k].auction == id,
        forall|k: int|
            #![trigger bs[k]]
            0 <= k < bs.len() ==> hs[k].bid_outcome(bs[k]) is Ok && hs[k].bid_effect(
                bs[k],
                hs[k + 1],
            ),
    ensures
        forall|k: int| 0 <= k < hs.len() ==> #[trigger] hs[k].auctions().len() == hs[0].auctions().len(),
        forall|i: int, j: int|
            0 <= i < j < hs.len() ==> hs[i].auctions()[id].price < hs[j].auctions()[id].price,
    decreases bs.len(),
{
    if bs.len() > 0 {
        let n = bs.len() - 1;
        let hs0 = hs.drop_last();
        let bs0 = bs.drop_last();
        assert forall|k: int| 0 <= k < bs0.len() implies #[trigger] bs0[k].auction == id by {
            assert(bs0[k] == bs[k]);
        }
        assert forall|k: int|
            #![trigger bs0[k]]
            0 <= k < bs0.len() implies hs0[k].bid_outcome(bs0[k]) is Ok && hs0[k].bid_effect(
                bs0[k],
                hs0[k + 1],
            ) by {
            assert(bs0[k] == bs[k]);
        }
        lemma_accepted_bids_raise_price(hs0, bs0, id);
        assert(bs[n].auction == id);
        assert(hs[n].bid_outcome(bs[n]) is Ok && hs[n].bid_effect(bs[n], hs[n + 1]));
        assert(hs0[n] == hs[n]);
        assert(hs[n + 1].auctions()[id].price == bs[n].price);
        assert forall|k: int| 0 <= k < hs.len() implies #[trigger] hs[k].auctions().len()
            == hs[0].auctions().len() by {
            if k < hs.len() - 1 {
                assert(hs0[k] == hs[k]);
            }
        }
        assert forall|i: int, j: int|
            0 <= i < j < hs.len() implies hs[i].auctions()[id].price < hs[j].auctions()[id].price by {
            assert(hs0[i] == hs[i]);
            if j < hs.len() - 1 {
                assert(hs0[j] == hs[j]);
            }
        }
    }
}

/// In a well-formed store, which every operation keeps, the vault of an open
/// auction holds the leading bid, or nothing before the first bid; the vault
/// of a settled auction is empty.
pub proof fn lemma_vault_holds_leading_bid(h: AuctionHouse, id: int)
    requires
        h.wf(),
        0 <= id < h.auctions().len(),
    ensures
        h.auctions()[id].ongoing && h.auctions()[id].bidder is Some ==> h.vaults()[id]
            == h.auctions()[id].price,
        h.auctions()[id].bidder is None ==> h.vaults()[id] == 0,
        !h.auctions()[id].ongoing ==> h.vaults()[id] == 0,
{
    assert(h.vaults()[id] == escrow_of(h.auctions()[id]));
}

/// Once an auction is settled, every later bid on it is rejected as ended and
/// every later settlement of it is rejected; a rejected operation changes
/// nothing.
pub proof fn lemma_settled_is_terminal(
    h0: AuctionHouse,
    c: CloseAuction,
    h1: AuctionHouse,
    b: Bid,
    c2: CloseAuction,
)
    requires
        h0.settle_outcome(c) is Ok,
        h0.settle_effect(c, h1),
        b.auction == c.auction,
        c2.auction == c.auction,
    ensures
        h1.bid_outcome(b) == Err::<(), AuctionErr>(AuctionErr::AuctionEnded),
        h1.settle_outcome(c2) is Err,
{
    assert(h1.auctions()[c.auction as int] == closed(
        h0.auctions()[c.auction as int],
    ));
}

/// When a bid displaces a leader, the leader's wallet gets back exactly the
/// amount that was escrowed, less whatever the new bid charges that same
/// wallet. With a different bidder, the two wallets and the vault hold
/// together what they held before, and every other wallet is untouched.
pub proof fn lemma_outbid_leader_refunded(h0: AuctionHouse, b: Bid, h1: AuctionHouse, leader: u64)
    requires
        h0.wf(),
        h0.bid_outcome(b) is Ok,
        h0.bid_effect(b, h1),
        h0.auctions()[b.auction as int].bidder == Some(leader),
    ensures
        h1.wallet(leader) + charge_to(b, leader) == h0.wallet(leader) + h0.auctions()[b.auction as int].price,
        leader != b.bidder ==> h1.wallet(leader) == h0.wallet(leader) + h0.auctions()[b.auction as int].price,
        leader != b.bidder ==> h1.wallet(leader) + h1.wallet(b.bidder) + h1.vaults()[b.auction as int]
            == h0.wallet(leader) + h0.wallet(b.bidder) + h0.vaults()[b.auction as int],
        forall|w: u64| w != leader && w != b.bidder ==> h1.wallet(w) == h0.wallet(w),
{
    let id = b.auction as int;
    assert(h1.wallet(leader) + charge_to(b, leader) == h0.wallet(leader) + refund_to(h0.auctions()[id], leader));
    assert(h1.wallet(b.bidder) + charge_to(b, b.bidder) == h0.wallet(b.bidder) + refund_to(h0.auctions()[id], b.bidder));
    assert(h0.vaults()[id] == escrow_of(h0.auctions()[id]));
    assert forall|w: u64| w != leader && w != b.bidder implies h1.wallet(w) == h0.wallet(w) by {
        assert(h1.wallet(w) + charge_to(b, w) == h0.wallet(w) + refund_to(h0.auctions()[id], w));
    }
}

/// A bid made at or after the deadline of an existing auction is rejected as
/// ended, whatever it offers.
pub proof fn lemma_late_bid_rejected(h: AuctionHouse, b: Bid)
    requires
        b.auction < h.auctions().len(),
        b.now >= h.auctions()[b.auction as int].end_time,
    ensures
        h.bid_outcome(b) == Err::<(), AuctionErr>(AuctionErr::AuctionEnded),
{
}

} // verus!
