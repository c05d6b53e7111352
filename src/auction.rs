use vstd::prelude::*;

use crate::registry::{lemma_transferred_wf, Module, RegistryView};
use crate::types::{Banner, BannerError, BidPayments, Event, AUCTION_DURATION};

verus! {

/// `r` succeeded with exactly the notifications `s`.
pub open spec fn emitted(r: Result<Vec<Event>, BannerError>, s: Seq<Event>) -> bool {
    match r {
        Ok(ev) => ev@ == s,
        Err(_) => false,
    }
}

/// The round of `b` still takes bids at height `now`.
pub open spec fn round_open(b: Banner, now: u64) -> bool {
    b.bid_end_height > now
}

/// `b` after `sender` became the leading bidder at `price`.
pub open spec fn outbid(b: Banner, sender: u64, price: u64) -> Banner {
    Banner { current_bidder: sender, current_price: price, ..b }
}

/// `b` with its auction fields back to neutral; the last bidder is kept.
pub open spec fn closed_round(b: Banner) -> Banner {
    Banner { can_bid: false, bid_end_height: 0, current_price: 0, ..b }
}

/// `b` with a round opened by `owner` at `price`, ending at `end`.
pub open spec fn opened_round(b: Banner, owner: u64, price: u64, end: u64) -> Banner {
    Banner { current_price: price, current_bidder: owner, can_bid: true, bid_end_height: end, ..b }
}

/// What a bid of `sender` at `price` on `b` moves: the current price back to
/// the leading bidder, and the difference to the owner.
pub open spec fn payments_for(b: Banner, owner: u64, sender: u64, price: u64) -> BidPayments {
    BidPayments {
        bidder: sender,
        refund_to: b.current_bidder,
        refund: b.current_price,
        owner,
        increment: (price - b.current_price) as u64,
    }
}

/// The error that a bid of `sender` at `price` on `id` meets at height `now`
/// before any payment, if any.
pub open spec fn bid_refusal(v: RegistryView, sender: u64, id: u64, price: u64, now: u64) -> Option<
    BannerError,
> {
    if !v.banners.contains_key(id) {
        Some(BannerError::NotFound)
    } else if !v.banners[id].can_bid {
        Some(BannerError::NotAuctioning)
    } else if round_open(v.banners[id], now) && sender == v.owner[id] {
        Some(BannerError::CannotBidOwn)
    } else if round_open(v.banners[id], now) && price <= v.banners[id].current_price {
        Some(BannerError::BidTooLow)
    } else {
        None
    }
}

impl RegistryView {
    /// The registry with the record of `id` replaced by `b`.
    pub open spec fn with_banner(self, id: u64, b: Banner) -> RegistryView {
        RegistryView { banners: self.banners.insert(id, b), ..self }
    }

    /// The registry after the expired round of `id` is settled: the round is
    /// closed and, where someone outbid the owner, the asset goes to them.
    pub open spec fn settled(self, id: u64) -> RegistryView {
        let b = self.banners[id];
        let owner = self.owner[id];
        let closed = self.with_banner(id, closed_round(b));
        if b.current_bidder == owner {
            closed
        } else {
            closed.transferred(owner, b.current_bidder, id)
        }
    }
}

/// Replacing a record by one with the same id keeps the registry well formed.
pub proof fn lemma_with_banner_wf(v: RegistryView, id: u64, b: Banner)
    requires
        v.wf(),
        v.banners.contains_key(id),
    ensures
        v.with_banner(id, b).wf(),
{
    let w = v.with_banner(id, b);
    assert(w.banners.dom() =~= v.banners.dom());
}

/// Settling an expired round leaves a well-formed registry in which the asset
/// is no longer biddable, so any further bid on it is refused as not
/// auctioning and settles nothing again.
pub proof fn lemma_settled_round_closed(v: RegistryView, id: u64)
    requires
        v.wf(),
        v.banners.contains_key(id),
    ensures
        v.settled(id).wf(),
        v.settled(id).banners.contains_key(id),
        !v.settled(id).banners[id].can_bid,
        forall|sender: u64, price: u64, now: u64|
            bid_refusal(v.settled(id), sender, id, price, now) == Some(BannerError::NotAuctioning),
{
    let b = v.banners[id];
    let closed = v.with_banner(id, closed_round(b));
    lemma_with_banner_wf(v, id, closed_round(b));
    if b.current_bidder != v.owner[id] {
        lemma_transferred_wf(closed, v.owner[id], b.current_bidder, id);
    }
}

/// The record after the accepted bids `bids` (bidder, price), in order.
pub open spec fn after_bids(b: Banner, bids: Seq<(u64, u64)>) -> Banner
    decreases bids.len(),
{
    if bids.len() == 0 {
        b
    } else {
        after_bids(outbid(b, bids[0].0, bids[0].1), bids.drop_first())
    }
}

/// Each of `bids` would be accepted in turn: no bid of the owner, each
/// price above the one before.
pub open spec fn bids_acceptable(b: Banner, owner: u64, bids: Seq<(u64, u64)>) -> bool
    decreases bids.len(),
{
    bids.len() == 0 || {
        &&& bids[0].0 != owner
        &&& bids[0].1 > b.current_price
        &&& bids_acceptable(outbid(b, bids[0].0, bids[0].1), owner, bids.drop_first())
    }
}

/// Everything that `owner` receives over the accepted bids `bids`.
pub open spec fn owner_receipts(b: Banner, owner: u64, bids: Seq<(u64, u64)>) -> int
    decreases bids.len(),
{
    if bids.len() == 0 {
        0
    } else {
        let p = payments_for(b, owner, bids[0].0, bids[0].1);
        (if p.refund_to == owner {
            p.refund as int
        } else {
            0
        }) + p.increment + owner_receipts(outbid(b, bids[0].0, bids[0].1), owner, bids.drop_first())
    }
}

proof fn lemma_receipts_telescope(b: Banner, owner: u64, bids: Seq<(u64, u64)>)
    requires
        bids_acceptable(b, owner, bids),
        bids.len() > 0,
    ensures
        owner_receipts(b, owner, bids) == after_bids(b, bids).current_price - (
        if b.current_bidder == owner {
            0
        } else {
            b.current_price as int
        }),
    decreases bids.len(),
{
    let b1 = outbid(b, bids[0].0, bids[0].1);
    let rest = bids.drop_first();
    assert(owner_receipts(b, owner, bids) == (if b.current_bidder == owner {
        b.current_price as int
    } else {
        0
    }) + (bids[0].1 - b.current_price) + owner_receipts(b1, owner, rest));
    assert(after_bids(b, bids) == after_bids(b1, rest));
    if rest.len() > 0 {
        lemma_receipts_telescope(b1, owner, rest);
    } else {
        assert(owner_receipts(b1, owner, rest) == 0);
        assert(after_bids(b1, rest) == b1);
    }
}

/// Over a round opened by `owner` (the placeholder bidder, who pays nothing),
/// the owner receives in all exactly the final price of the accepted bids,
/// and nothing where no bid was accepted.
pub proof fn lemma_payment_conservation(b: Banner, owner: u64, bids: Seq<(u64, u64)>)
    requires
        b.current_bidder == owner,
        bids_acceptable(b, owner, bids),
    ensures
        owner_receipts(b, owner, bids) == if bids.len() == 0 {
            0
        } else {
            after_bids(b, bids).current_price as int
        },
{
    if bids.len() > 0 {
        lemma_receipts_telescope(b, owner, bids);
    }
}

impl Module {
    /// Opens an auction round on an asset that `sender` owns, at
    /// `starting_price`, ending `AUCTION_DURATION` blocks after `now`; the
    /// owner stands as leading bidder.
    pub fn auction_banner(&mut self, sender: u64, banner_id: u64, starting_price: u64, now: u64) -> (r:
        Result<Event, BannerError>)
        requires
            old(self)@.wf(),
        ensures
            final(self)@.wf(),
            !old(self)@.banners.contains_key(banner_id) ==> r == Err::<Event, BannerError>(
                BannerError::NotFound,
            ),
            old(self)@.banners.contains_key(banner_id) && old(self)@.owner[banner_id] != sender
                ==> r == Err::<Event, BannerError>(BannerError::NotOwner),
            old(self)@.banners.contains_key(banner_id) && old(self)@.owner[banner_id] == sender
                && old(self)@.banners[banner_id].can_bid ==> r == Err::<Event, BannerError>(
                BannerError::AlreadyAuctioning,
            ),
            old(self)@.banners.contains_key(banner_id) && old(self)@.owner[banner_id] == sender
                && !old(self)@.banners[banner_id].can_bid && now + AUCTION_DURATION > u64::MAX
                ==> r == Err::<Event, BannerError>(BannerError::CapacityExceeded),
            r is Err ==> final(self)@ == old(self)@,
            old(self)@.banners.contains_key(banner_id) && old(self)@.owner[banner_id] == sender
                && !old(self)@.banners[banner_id].can_bid && now + AUCTION_DURATION <= u64::MAX
                ==> {
                &&& r == Ok::<Event, BannerError>(
                    Event::StartAuction(sender, banner_id, starting_price),
                )
                &&& final(self)@ == old(self)@.with_banner(
                    banner_id,
                    opened_round(
                        old(self)@.banners[banner_id],
                        sender,
                        starting_price,
                        (now + AUCTION_DURATION) as u64,
                    ),
                )
            },
    {
        let can_bid = match self.banner(banner_id) {
            Some(b) => b.can_bid,
            None => {
                return Err(BannerError::NotFound);
            },
        };
        let owner = match self.owner_of(banner_id) {
            Some(o) => o,
            None => {
                return Err(BannerError::NotFound);
            },
        };
        if owner != sender {
            return Err(BannerError::NotOwner);
        }
        if can_bid {
            return Err(BannerError::AlreadyAuctioning);
        }
        let end = match now.checked_add(AUCTION_DURATION) {
            Some(e) => e,
            None => {
                return Err(BannerError::CapacityExceeded);
            },
        };
        let mut banner = self.take_banner(banner_id);
        banner.current_price = starting_price;
        banner.can_bid = true;
        banner.current_bidder = sender;
        banner.bid_end_height = end;
        proof {
            lemma_with_banner_wf(old(self)@, banner_id, banner);
        }
        self.put_banner(banner_id, banner);
        assert(self@.banners =~= old(self)@.banners.insert(banner_id, banner));
        Ok(Event::StartAuction(sender, banner_id, starting_price))
    }

    /// The payments that a bid of `sender` at `bid_price` on `banner_id` at
    /// height `now` asks of the value ledger: `Some` where the round is open and
    /// the bid acceptable, `None` where the round has expired and the bid
    /// would settle it.
    pub fn bid_payments(&self, sender: u64, banner_id: u64, bid_price: u64, now: u64) -> (r: Result<
        Option<BidPayments>,
        BannerError,
    >)
        requires
            self@.wf(),
        ensures
            match bid_refusal(self@, sender, banner_id, bid_price, now) {
                Some(e) => r == Err::<Option<BidPayments>, BannerError>(e),
                None => if round_open(self@.banners[banner_id], now) {
                    r == Ok::<Option<BidPayments>, BannerError>(
                        Some(
                            payments_for(
                                self@.banners[banner_id],
                                self@.owner[banner_id],
                                sender,
                                bid_price,
                            ),
                        ),
                    )
                } else {
                    r == Ok::<Option<BidPayments>, BannerError>(None)
                },
            },
    {
        let (can_bid, end, price, bidder) = match self.banner(banner_id) {
            Some(b) => (b.can_bid, b.bid_end_height, b.current_price, b.current_bidder),
            None => {
                return Err(BannerError::NotFound);
            },
        };
        let owner = match self.owner_of(banner_id) {
            Some(o) => o,
            None => {
                return Err(BannerError::NotFound);
            },
        };
        if !can_bid {
            return Err(BannerError::NotAuctioning);
        }
        if end > now {
            if owner == sender {
                return Err(BannerError::CannotBidOwn);
            }
            if bid_price <= price {
                return Err(BannerError::BidTooLow);
            }
            Ok(
                Some(
                    BidPayments {
                        bidder: sender,
                        refund_to: bidder,
                        refund: price,
                        owner,
                        increment: bid_price - price,
                    },
                ),
            )
        } else {
            Ok(None)
        }
    }

    /// A bid of `sender` at `bid_price` on `banner_id` at height `now`;
    /// `paid` says whether the ledger made both payments that `bid_payments`
    /// named for it.
    ///
    /// While the round is open an acceptable, paid bid makes `sender` the
    /// leading bidder at `bid_price`. Once the round has expired the call
    /// settles it instead, whatever its price: the round closes, and the asset
    /// goes to the leading bidder unless that is still the owner.
    pub fn bid(&mut self, sender: u64, banner_id: u64, bid_price: u64, now: u64, paid: bool) -> (r:
        Result<Vec<Event>, BannerError>)
        requires
            old(self)@.wf(),
        ensures
            final(self)@.wf(),
            r is Err ==> final(self)@ == old(self)@,
            bid_refusal(old(self)@, sender, banner_id, bid_price, now) matches Some(e) ==> r
                == Err::<Vec<Event>, BannerError>(e),
            ({
                let v = old(self)@;
                let b = v.banners[banner_id];
                bid_refusal(v, sender, banner_id, bid_price, now) is None && round_open(b, now) ==> {
                    &&& !paid ==> r == Err::<Vec<Event>, BannerError>(BannerError::PaymentFailed)
                    &&& paid ==> emitted(r, seq![
                        Event::Bid(sender, banner_id, bid_price),
                    ]) && final(self)@ == v.with_banner(banner_id, outbid(b, sender, bid_price))
                        && final(self)@.banners[banner_id].current_price > b.current_price
                }
            }),
            ({
                let v = old(self)@;
                let b = v.banners[banner_id];
                let owner = v.owner[banner_id];
                bid_refusal(v, sender, banner_id, bid_price, now) is None && !round_open(b, now)
                    ==> {
                    &&& final(self)@ == v.settled(banner_id)
                    &&& b.current_bidder == owner ==> emitted(r, seq![
                        Event::Abort(owner, banner_id),
                    ])
                    &&& b.current_bidder != owner ==> emitted(r, seq![
                        Event::Transferred(owner, b.current_bidder, banner_id),
                        Event::Deal(b.current_bidder, banner_id, b.current_price),
                    ])
                }
            }),
    {
        let (can_bid, end, price, bidder) = match self.banner(banner_id) {
            Some(b) => (b.can_bid, b.bid_end_height, b.current_price, b.current_bidder),
            None => {
                return Err(BannerError::NotFound);
            },
        };
        let owner = match self.owner_of(banner_id) {
            Some(o) => o,
            None => {
                return Err(BannerError::NotFound);
            },
        };
        if !can_bid {
            return Err(BannerError::NotAuctioning);
        }
        if end > now {
            if owner == sender {
                return Err(BannerError::CannotBidOwn);
            }
            if bid_price <= price {
                return Err(BannerError::BidTooLow);
            }
            if !paid {
                return Err(BannerError::PaymentFailed);
            }
            let mut banner = self.take_banner(banner_id);
            banner.current_bidder = sender;
            banner.current_price = bid_price;
            proof {
                lemma_with_banner_wf(old(self)@, banner_id, banner);
            }
            self.put_banner(banner_id, banner);
            assert(self@.banners =~= old(self)@.banners.insert(banner_id, banner));
            let mut events = Vec::new();
            events.push(Event::Bid(sender, banner_id, bid_price));
            assert(events@ =~= seq![Event::Bid(sender, banner_id, bid_price)]);
            Ok(events)
        } else {
            proof {
                lemma_settled_round_closed(old(self)@, banner_id);
            }
            let mut banner = self.take_banner(banner_id);
            banner.can_bid = false;
            banner.bid_end_height = 0;
            banner.current_price = 0;
            self.put_banner(banner_id, banner);
            assert(self@.banners =~= old(self)@.banners.insert(banner_id, banner));
            let mut events = Vec::new();
            if bidder == owner {
                events.push(Event::Abort(owner, banner_id));
                assert(events@ =~= seq![Event::Abort(owner, banner_id)]);
                Ok(events)
            } else {
                match self.transfer_from(owner, bidder, banner_id) {
                    Ok(e) => {
                        events.push(e);
                        events.push(Event::Deal(bidder, banner_id, price));
                        assert(events@ =~= seq![e, Event::Deal(bidder, banner_id, price)]);
                        Ok(events)
                    },
                    Err(e) => Err(e),
                }
            }
        }
    }
}

} // verus!
