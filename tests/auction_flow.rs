use automatic_auction::house::{bid, close_auction, create_auction, AuctionHouse};
use automatic_auction::state::{AuctionErr, Bid, CloseAuction, CreateAuction};

const SELLER: u64 = 1;
const ASSET: u64 = 7;
const TRIGGER: u64 = 99;
const B1: u64 = 11;
const B2: u64 = 12;
const T: i64 = 1_000_000;

fn listing() -> CreateAuction {
    CreateAuction { seller: SELLER, asset: ASSET, start_price: 100, end_time: T + 1000, trigger: TRIGGER }
}

fn funded_house() -> (AuctionHouse, usize) {
    let mut h = AuctionHouse::new();
    h.deposit(B1, 1000).unwrap();
    h.deposit(B2, 1000).unwrap();
    let id = create_auction(&mut h, listing()).unwrap();
    (h, id)
}

fn offer(id: usize, bidder: u64, price: u64) -> Bid {
    Bid { auction: id, bidder, price, now: T }
}

fn settle_req(id: usize, now: i64) -> CloseAuction {
    CloseAuction { auction: id, caller: TRIGGER, now }
}

#[test]
fn scenario_a_equal_bid_rejected_then_higher_accepted() {
    let (mut h, id) = funded_house();
    assert_eq!(bid(&mut h, offer(id, B1, 100)), Err(AuctionErr::BidTooLow));
    assert_eq!(h.balance_of(B1), 1000);
    assert_eq!(h.vault_balance(id), Ok(0));
    assert_eq!(bid(&mut h, offer(id, B1, 150)), Ok(()));
    let a = h.get_auction(id).unwrap();
    assert_eq!(a.price, 150);
    assert_eq!(a.bidder, Some(B1));
    assert_eq!(h.vault_balance(id), Ok(150));
    assert_eq!(h.balance_of(B1), 850);
}

#[test]
fn scenario_b_outbid_refunds_previous_leader() {
    let (mut h, id) = funded_house();
    bid(&mut h, offer(id, B1, 150)).unwrap();
    assert_eq!(bid(&mut h, offer(id, B2, 200)), Ok(()));
    assert_eq!(h.balance_of(B1), 1000);
    assert_eq!(h.balance_of(B2), 800);
    assert_eq!(h.vault_balance(id), Ok(200));
    assert_eq!(h.get_auction(id).unwrap().bidder, Some(B2));
}

#[test]
fn scenario_c_settlement_pays_seller_once() {
    let (mut h, id) = funded_house();
    bid(&mut h, offer(id, B1, 150)).unwrap();
    bid(&mut h, offer(id, B2, 200)).unwrap();
    assert_eq!(close_auction(&mut h, settle_req(id, T + 1001)), Ok(()));
    assert_eq!(h.balance_of(SELLER), 200);
    assert_eq!(h.vault_balance(id), Ok(0));
    let a = h.get_auction(id).unwrap();
    assert!(!a.ongoing);
    assert_eq!(a.bidder, Some(B2));
    assert_eq!(close_auction(&mut h, settle_req(id, T + 1002)), Err(AuctionErr::AlreadySettled));
    assert_eq!(h.balance_of(SELLER), 200);
}

#[test]
fn scenario_d_settle_without_bids() {
    let (mut h, id) = funded_house();
    assert!(h.is_settlable(id, T + 1001));
    assert_eq!(close_auction(&mut h, settle_req(id, T + 1001)), Ok(()));
    assert_eq!(h.balance_of(SELLER), 0);
    assert_eq!(h.vault_balance(id), Ok(0));
    let a = h.get_auction(id).unwrap();
    assert!(!a.ongoing);
    assert_eq!(a.bidder, None);
    assert!(!h.is_settlable(id, T + 1001));
}

#[test]
fn scenario_e_bid_after_settle_rejected() {
    let (mut h, id) = funded_house();
    bid(&mut h, offer(id, B1, 150)).unwrap();
    close_auction(&mut h, settle_req(id, T + 1001)).unwrap();
    assert_eq!(bid(&mut h, offer(id, B2, 500)), Err(AuctionErr::AuctionEnded));
    assert_eq!(h.balance_of(B2), 1000);
    assert_eq!(h.balance_of(B1), 850);
    assert_eq!(h.balance_of(SELLER), 150);
}

#[test]
fn prices_strictly_increase_over_accepted_bids() {
    let (mut h, id) = funded_house();
    let mut last = h.get_auction(id).unwrap().price;
    for (who, p) in [(B1, 101), (B2, 150), (B1, 150), (B1, 300), (B2, 299), (B2, 301)] {
        let accepted = bid(&mut h, offer(id, who, p)).is_ok();
        let now = h.get_auction(id).unwrap().price;
        if accepted {
            assert!(now > last);
        } else {
            assert_eq!(now, last);
        }
        last = now;
    }
    assert_eq!(last, 301);
}

#[test]
fn vault_matches_leading_bid_after_each_step() {
    let (mut h, id) = funded_house();
    assert_eq!(h.vault_balance(id), Ok(0));
    for (who, p) in [(B1, 120), (B2, 130), (B2, 180), (B1, 90)] {
        let _ = bid(&mut h, offer(id, who, p));
        let a = h.get_auction(id).unwrap();
        assert_eq!(h.vault_balance(id), Ok(a.price));
    }
    assert_eq!(h.balance_of(B1) + h.balance_of(B2) + h.vault_balance(id).unwrap(), 2000);
    close_auction(&mut h, settle_req(id, T + 1000)).unwrap();
    assert_eq!(h.vault_balance(id), Ok(0));
    assert_eq!(h.balance_of(SELLER), 180);
}

#[test]
fn settled_auction_rejects_everything_and_stays_put() {
    let (mut h, id) = funded_house();
    bid(&mut h, offer(id, B1, 150)).unwrap();
    close_auction(&mut h, settle_req(id, T + 1001)).unwrap();
    let before = h.get_auction(id).unwrap();
    assert_eq!(bid(&mut h, offer(id, B1, 1000)), Err(AuctionErr::AuctionEnded));
    assert_eq!(close_auction(&mut h, settle_req(id, T + 5000)), Err(AuctionErr::AlreadySettled));
    assert_eq!(
        close_auction(&mut h, CloseAuction { auction: id, caller: B2, now: T + 5000 }),
        Err(AuctionErr::Unauthorized)
    );
    assert_eq!(h.get_auction(id).unwrap(), before);
    assert_eq!(h.balance_of(SELLER), 150);
}

#[test]
fn outbid_leader_gets_exact_refund() {
    let (mut h, id) = funded_house();
    bid(&mut h, offer(id, B1, 400)).unwrap();
    assert_eq!(h.balance_of(B1), 600);
    bid(&mut h, offer(id, B2, 401)).unwrap();
    assert_eq!(h.balance_of(B1), 1000);
    assert_eq!(h.balance_of(B2), 599);
}

#[test]
fn leader_raising_own_bid_pays_difference() {
    let (mut h, id) = funded_house();
    bid(&mut h, offer(id, B1, 400)).unwrap();
    bid(&mut h, offer(id, B1, 900)).unwrap();
    assert_eq!(h.balance_of(B1), 100);
    assert_eq!(h.vault_balance(id), Ok(900));
    assert_eq!(bid(&mut h, offer(id, B1, 1101)), Err(AuctionErr::InsufficientFunds));
    assert_eq!(bid(&mut h, offer(id, B1, 1000)), Ok(()));
    assert_eq!(h.balance_of(B1), 0);
}

#[test]
fn bid_at_or_after_deadline_rejected() {
    let (mut h, id) = funded_house();
    let late = Bid { auction: id, bidder: B1, price: 500, now: T + 1000 };
    assert_eq!(bid(&mut h, late), Err(AuctionErr::AuctionEnded));
    let later = Bid { auction: id, bidder: B1, price: u64::MAX, now: i64::MAX };
    assert_eq!(bid(&mut h, later), Err(AuctionErr::AuctionEnded));
    let just_in_time = Bid { auction: id, bidder: B1, price: 500, now: T + 999 };
    assert_eq!(bid(&mut h, just_in_time), Ok(()));
}

#[test]
fn unknown_auction_not_found() {
    let (mut h, id) = funded_house();
    assert_eq!(bid(&mut h, offer(id + 1, B1, 500)), Err(AuctionErr::NotFound));
    assert_eq!(close_auction(&mut h, settle_req(id + 1, T + 2000)), Err(AuctionErr::NotFound));
    assert_eq!(h.get_auction(id + 1), Err(AuctionErr::NotFound));
    assert_eq!(h.vault_balance(id + 1), Err(AuctionErr::NotFound));
}

#[test]
fn second_live_listing_already_active() {
    let (mut h, id) = funded_house();
    assert_eq!(create_auction(&mut h, listing()), Err(AuctionErr::AlreadyActive));
    assert_eq!(h.auction_count(), 1);
    let other = CreateAuction { asset: ASSET + 1, ..listing() };
    assert_eq!(create_auction(&mut h, other), Ok(id + 1));
    assert_eq!(h.auction_count(), 2);
}

#[test]
fn closed_listing_reopens_under_same_handle() {
    let (mut h, id) = funded_house();
    bid(&mut h, offer(id, B1, 150)).unwrap();
    close_auction(&mut h, settle_req(id, T + 1001)).unwrap();
    let again = CreateAuction { start_price: 5, end_time: T + 3000, ..listing() };
    assert_eq!(create_auction(&mut h, again), Ok(id));
    let a = h.get_auction(id).unwrap();
    assert!(a.ongoing);
    assert_eq!(a.price, 5);
    assert_eq!(a.bidder, None);
    assert_eq!(h.vault_balance(id), Ok(0));
    assert_eq!(h.auction_count(), 1);
}

#[test]
fn settle_by_wrong_caller_or_too_early_unauthorized() {
    let (mut h, id) = funded_house();
    bid(&mut h, offer(id, B1, 150)).unwrap();
    let stranger = CloseAuction { auction: id, caller: SELLER, now: T + 2000 };
    assert_eq!(close_auction(&mut h, stranger), Err(AuctionErr::Unauthorized));
    assert_eq!(close_auction(&mut h, settle_req(id, T + 999)), Err(AuctionErr::Unauthorized));
    assert!(!h.is_settlable(id, T + 999));
    assert!(h.get_auction(id).unwrap().ongoing);
    assert_eq!(h.vault_balance(id), Ok(150));
}

#[test]
fn bid_beyond_wallet_insufficient_funds() {
    let (mut h, id) = funded_house();
    assert_eq!(bid(&mut h, offer(id, B1, 1001)), Err(AuctionErr::InsufficientFunds));
    assert_eq!(bid(&mut h, offer(id, 55, 101)), Err(AuctionErr::InsufficientFunds));
    assert_eq!(h.balance_of(B1), 1000);
    assert_eq!(h.vault_balance(id), Ok(0));
    assert_eq!(h.withdraw(B1, 1001), Err(AuctionErr::InsufficientFunds));
    assert_eq!(h.withdraw(B1, 1000), Ok(()));
    assert_eq!(h.balance_of(B1), 0);
}

#[test]
fn refund_or_payout_past_max_overflows() {
    let (mut h, id) = funded_house();
    bid(&mut h, offer(id, B1, 150)).unwrap();
    h.deposit(B1, u64::MAX - 850).unwrap();
    assert_eq!(h.balance_of(B1), u64::MAX);
    assert_eq!(bid(&mut h, offer(id, B2, 200)), Err(AuctionErr::BalanceOverflow));
    assert_eq!(h.get_auction(id).unwrap().bidder, Some(B1));
    assert_eq!(h.deposit(B1, 1), Err(AuctionErr::BalanceOverflow));
    h.deposit(SELLER, u64::MAX).unwrap();
    assert_eq!(close_auction(&mut h, settle_req(id, T + 1001)), Err(AuctionErr::BalanceOverflow));
    assert!(h.get_auction(id).unwrap().ongoing);
    assert_eq!(h.vault_balance(id), Ok(150));
}
