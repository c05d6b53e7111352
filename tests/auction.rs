use banners::{BannerError, BidPayments, Event, Module, AUCTION_DURATION};

fn one_banner(owner: u64, id: u64) -> Module {
    let mut m = Module::new();
    m.create_banner(owner, id, Vec::new(), Vec::new(), Vec::new()).unwrap();
    m
}

/// Runs a bid as a caller does: asks for the payments, makes them, reports.
fn bid_paying(m: &mut Module, sender: u64, id: u64, price: u64, now: u64) -> Result<Vec<Event>, BannerError> {
    m.bid_payments(sender, id, price, now)?;
    m.bid(sender, id, price, now, true)
}

#[test]
fn auction_round_with_one_bid_ends_in_deal() {
    let mut m = one_banner(1, 7);
    assert_eq!(m.all_banners_count(), 1);
    assert_eq!(m.owned_banner_count(1), 1);
    assert_eq!(m.auction_banner(1, 7, 100, 50), Ok(Event::StartAuction(1, 7, 100)));
    let b = m.banner(7).unwrap();
    assert!(b.can_bid);
    assert_eq!(b.current_price, 100);
    assert_eq!(b.current_bidder, 1);
    assert_eq!(b.bid_end_height, 50 + AUCTION_DURATION);

    let pay = m.bid_payments(2, 7, 150, 60).unwrap().unwrap();
    assert_eq!(pay, BidPayments { bidder: 2, refund_to: 1, refund: 100, owner: 1, increment: 50 });
    assert_eq!(m.bid(2, 7, 150, 60, true), Ok(vec![Event::Bid(2, 7, 150)]));
    let b = m.banner(7).unwrap();
    assert_eq!(b.current_price, 150);
    assert_eq!(b.current_bidder, 2);

    let late = 50 + AUCTION_DURATION + 1;
    assert_eq!(m.bid_payments(3, 7, 200, late), Ok(None));
    let r = m.bid(3, 7, 200, late, true);
    assert_eq!(r, Ok(vec![Event::Transferred(1, 2, 7), Event::Deal(2, 7, 150)]));
    assert_eq!(m.owner_of(7), Some(2));
    assert_eq!(m.owned_banner_count(1), 0);
    assert_eq!(m.owned_banner_count(2), 1);
    assert_eq!(m.owned_banner_count(3), 0);
    let b = m.banner(7).unwrap();
    assert!(!b.can_bid);
    assert_eq!(b.current_price, 0);
    assert_eq!(b.bid_end_height, 0);
}

#[test]
fn expired_round_without_bids_aborts() {
    let mut m = one_banner(1, 7);
    m.auction_banner(1, 7, 100, 0).unwrap();
    let r = m.bid(5, 7, 1, AUCTION_DURATION + 10, false);
    assert_eq!(r, Ok(vec![Event::Abort(1, 7)]));
    assert_eq!(m.owner_of(7), Some(1));
    assert_eq!(m.owned_banner_count(1), 1);
    assert!(!m.banner(7).unwrap().can_bid);
}

#[test]
fn round_ends_at_its_deadline_height() {
    let mut m = one_banner(1, 7);
    m.auction_banner(1, 7, 100, 0).unwrap();
    assert!(m.bid_payments(2, 7, 101, AUCTION_DURATION - 1).unwrap().is_some());
    assert_eq!(m.bid_payments(2, 7, 101, AUCTION_DURATION), Ok(None));
    assert_eq!(m.bid(2, 7, 101, AUCTION_DURATION, true), Ok(vec![Event::Abort(1, 7)]));
}

#[test]
fn settled_round_refuses_further_bids() {
    let mut m = one_banner(1, 7);
    m.auction_banner(1, 7, 100, 0).unwrap();
    bid_paying(&mut m, 2, 7, 120, 1).unwrap();
    let late = AUCTION_DURATION + 5;
    bid_paying(&mut m, 3, 7, 0, late).unwrap();
    assert_eq!(m.bid(3, 7, 500, late + 1, true), Err(BannerError::NotAuctioning));
    assert_eq!(m.bid_payments(3, 7, 500, late + 1), Err(BannerError::NotAuctioning));
    assert_eq!(m.owner_of(7), Some(2));
    assert_eq!(m.owned_banner_count(2), 1);
}

#[test]
fn prices_strictly_rise_and_owner_receives_final_price() {
    let mut m = one_banner(1, 7);
    m.auction_banner(1, 7, 100, 0).unwrap();
    let mut to_owner = 0u64;
    let mut last = 100u64;
    for (bidder, price) in [(2u64, 150u64), (3, 160), (2, 400), (4, 401)] {
        let p = m.bid_payments(bidder, 7, price, 10).unwrap().unwrap();
        if p.refund_to == 1 {
            to_owner += p.refund;
        }
        to_owner += p.increment;
        m.bid(bidder, 7, price, 10, true).unwrap();
        let now_price = m.banner(7).unwrap().current_price;
        assert!(now_price > last);
        last = now_price;
    }
    assert_eq!(last, 401);
    assert_eq!(to_owner, 401);
}

#[test]
fn equal_bid_is_too_low() {
    let mut m = one_banner(1, 7);
    m.auction_banner(1, 7, 100, 0).unwrap();
    assert_eq!(m.bid_payments(2, 7, 100, 1), Err(BannerError::BidTooLow));
    assert_eq!(m.bid(2, 7, 100, 1, true), Err(BannerError::BidTooLow));
    assert_eq!(m.bid(2, 7, 99, 1, true), Err(BannerError::BidTooLow));
    assert_eq!(m.banner(7).unwrap().current_bidder, 1);
}

#[test]
fn owner_cannot_bid() {
    let mut m = one_banner(1, 7);
    m.auction_banner(1, 7, 100, 0).unwrap();
    assert_eq!(m.bid(1, 7, 200, 1, true), Err(BannerError::CannotBidOwn));
}

#[test]
fn unpaid_bid_changes_nothing() {
    let mut m = one_banner(1, 7);
    m.auction_banner(1, 7, 100, 0).unwrap();
    assert_eq!(m.bid(2, 7, 200, 1, false), Err(BannerError::PaymentFailed));
    let b = m.banner(7).unwrap();
    assert_eq!(b.current_price, 100);
    assert_eq!(b.current_bidder, 1);
}

#[test]
fn bid_on_unknown_or_idle_banner() {
    let mut m = one_banner(1, 7);
    assert_eq!(m.bid(2, 8, 10, 0, true), Err(BannerError::NotFound));
    assert_eq!(m.bid(2, 7, 10, 0, true), Err(BannerError::NotAuctioning));
}

#[test]
fn auction_start_errors() {
    let mut m = one_banner(1, 7);
    assert_eq!(m.auction_banner(1, 8, 10, 0), Err(BannerError::NotFound));
    assert_eq!(m.auction_banner(2, 7, 10, 0), Err(BannerError::NotOwner));
    assert_eq!(m.auction_banner(1, 7, 10, u64::MAX), Err(BannerError::CapacityExceeded));
    assert!(!m.banner(7).unwrap().can_bid);
    m.auction_banner(1, 7, 10, 0).unwrap();
    assert_eq!(m.auction_banner(1, 7, 20, 0), Err(BannerError::AlreadyAuctioning));
    assert_eq!(m.banner(7).unwrap().current_price, 10);
}

#[test]
fn new_round_after_abort() {
    let mut m = one_banner(1, 7);
    m.auction_banner(1, 7, 10, 0).unwrap();
    m.bid(2, 7, 0, AUCTION_DURATION, true).unwrap();
    assert_eq!(m.auction_banner(1, 7, 30, AUCTION_DURATION), Ok(Event::StartAuction(1, 7, 30)));
    assert_eq!(m.banner(7).unwrap().bid_end_height, 2 * AUCTION_DURATION);
}
