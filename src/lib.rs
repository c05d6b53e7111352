//! A registry of uniquely identified assets ("banners") with single-owner
//! custody, a global and a per-owner enumeration index kept dense by
//! swap-and-pop, and a time-boxed English auction per asset that is settled
//! lazily by the first bid after its deadline.

pub mod auction;
pub mod ident;
pub mod registry;
pub mod types;

pub use registry::Module;
pub use types::{Banner, BannerError, BidPayments, Event, AUCTION_DURATION};
