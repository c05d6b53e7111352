use vstd::prelude::*;

verus! {

/// Block count of one auction round: about a day at six-second blocks.
pub const AUCTION_DURATION: u64 = 14400;

/// One uniquely identified asset with its embedded auction state.
///
/// `current_bidder` is the leading bidder of the open round (the owner while
/// nobody has outbid the starting price); `can_bid` says a round is open and
/// `bid_end_height` is the first block height at which it is over.
#[derive(Debug)]
pub struct Banner {
    pub id: u64,
    pub name: Vec<u8>,
    pub image_url: Vec<u8>,
    pub desc: Vec<u8>,
    pub current_price: u64,
    pub current_bidder: u64,
    pub can_bid: bool,
    pub bid_end_height: u64,
}

/// Why an operation of the registry did not take effect.
#[derive(Debug, Clone, Copy, PartialEq, Eq, Structural)]
pub enum BannerError {
    /// The asset id is unknown.
    NotFound,
    /// The caller does not hold the asset.
    NotOwner,
    /// An auction round is already open on the asset.
    AlreadyAuctioning,
    /// No auction round is open on the asset.
    NotAuctioning,
    /// The owner tried to bid on their own asset.
    CannotBidOwn,
    /// The bid does not exceed the current price.
    BidTooLow,
    /// A count, or the deadline of a new round, would leave its numeric range.
    CapacityExceeded,
    /// The derived id already belongs to an asset.
    DuplicateId,
    /// The value ledger refused one of the payments of a bid.
    PaymentFailed,
}

/// Notification of an operation that took effect.
#[derive(Debug, Clone, Copy, PartialEq, Eq, Structural)]
pub enum Event {
    /// (owner, asset)
    CreateBanner(u64, u64),
    /// (owner, asset, starting price)
    StartAuction(u64, u64, u64),
    /// (bidder, asset, price)
    Bid(u64, u64, u64),
    /// (from, to, asset)
    Transferred(u64, u64, u64),
    /// (buyer, asset, price)
    Deal(u64, u64, u64),
    /// (owner, asset)
    Abort(u64, u64),
}

/// The two value transfers that an accepted bid asks of the ledger, both paid
/// by `bidder`: `refund` to the previous leading bidder and `increment` to the
/// owner.
#[derive(Debug, Clone, Copy, PartialEq, Eq, Structural)]
pub struct BidPayments {
    pub bidder: u64,
    pub refund_to: u64,
    pub refund: u64,
    pub owner: u64,
    pub increment: u64,
}

} // verus!
