//! An escalating-bid auction over a shared ledger: participants escrow native
//! value into a pot by at least doubling the current high bid; when no bid
//! arrives within the timeout window, the game settles, splitting the pot
//! between a platform fee, the winning bidder, and a weighted royalty payout
//! to earlier bidders.
//!
//! The library models exactly the mutations the program itself performs on
//! the accounts handed to a call (balance transfers and record writes);
//! operations that only the ledger runtime can perform (account creation and
//! funding) are returned as effects for the caller to carry out.

pub mod addr;
pub mod codec;
pub mod error;
pub mod instructions;
pub mod laws;
pub mod processor;
pub mod royalty;
pub mod settle;
pub mod state;

use vstd::prelude::*;

verus! {

/// Smallest amount accepted as a game's opening bid.
pub const MIN_INITIAL_BID: u64 = 14_000_000;

/// Seconds of inactivity after which the next bid attempt settles the game
/// instead of bidding.
pub const TIMEOUT_SECONDS: u64 = 300;

} // verus!
