use vstd::prelude::*;

verus! {

/// The closed set of protocol-level failures a caller can observe. Callers
/// identify each by a stable numeric code (`code`).
#[derive(Debug, Copy, Clone, PartialEq, Eq, Structural)]
pub enum BiddingError {
    InsufficientInitialBid,
    InvalidGameAccount,
    InvalidPlayerAccount,
    InvalidBidAccount,
    GameEnded,
    InsufficientBidAmount,
    InvalidNewPlayerAccount,
    InvalidNewBidAccount,
    NoBidsFound,
    NoWinnerFound,
    BidderAccountNotFound,
    SystemProgramNotFound,
    FailedToFetchBidHistory,
    BidCountMismatch,
    FailedToDeserializeBidData,
    InsufficientFunds,
    RoyaltyTransferFailed,
    AccountNotFound,
    BidAccountNotInitialized,
    BidAccountNotFound,
    PlayerAccountNotFound,
    InvalidInstruction,
}

impl BiddingError {
    /// The stable numeric code of each variant, in declaration order.
    pub fn code(&self) -> (r: u32)
        ensures
            r == self.spec_code(),
    {
        match self {
            BiddingError::InsufficientInitialBid => 0,
            BiddingError::InvalidGameAccount => 1,
            BiddingError::InvalidPlayerAccount => 2,
            BiddingError::InvalidBidAccount => 3,
            BiddingError::GameEnded => 4,
            BiddingError::InsufficientBidAmount => 5,
            BiddingError::InvalidNewPlayerAccount => 6,
            BiddingError::InvalidNewBidAccount => 7,
            BiddingError::NoBidsFound => 8,
            BiddingError::NoWinnerFound => 9,
            BiddingError::BidderAccountNotFound => 10,
            BiddingError::SystemProgramNotFound => 11,
            BiddingError::FailedToFetchBidHistory => 12,
            BiddingError::BidCountMismatch => 13,
            BiddingError::FailedToDeserializeBidData => 14,
            BiddingError::InsufficientFunds => 15,
            BiddingError::RoyaltyTransferFailed => 16,
            BiddingError::AccountNotFound => 17,
            BiddingError::BidAccountNotInitialized => 18,
            BiddingError::BidAccountNotFound => 19,
            BiddingError::PlayerAccountNotFound => 20,
            BiddingError::InvalidInstruction => 21,
        }
    }

    pub open spec fn spec_code(&self) -> u32 {
        match self {
            BiddingError::InsufficientInitialBid => 0u32,
            BiddingError::InvalidGameAccount => 1u32,
            BiddingError::InvalidPlayerAccount => 2u32,
            BiddingError::InvalidBidAccount => 3u32,
            BiddingError::GameEnded => 4u32,
            BiddingError::InsufficientBidAmount => 5u32,
            BiddingError::InvalidNewPlayerAccount => 6u32,
            BiddingError::InvalidNewBidAccount => 7u32,
            BiddingError::NoBidsFound => 8u32,
            BiddingError::NoWinnerFound => 9u32,
            BiddingError::BidderAccountNotFound => 10u32,
            BiddingError::SystemProgramNotFound => 11u32,
            BiddingError::FailedToFetchBidHistory => 12u32,
            BiddingError::BidCountMismatch => 13u32,
            BiddingError::FailedToDeserializeBidData => 14u32,
            BiddingError::InsufficientFunds => 15u32,
            BiddingError::RoyaltyTransferFailed => 16u32,
            BiddingError::AccountNotFound => 17u32,
            BiddingError::BidAccountNotInitialized => 18u32,
            BiddingError::BidAccountNotFound => 19u32,
            BiddingError::PlayerAccountNotFound => 20u32,
            BiddingError::InvalidInstruction => 21u32,
        }
    }
}

/// Everything an instruction can fail with. `Bidding` carries a protocol
/// error; the other variants mirror the runtime-level failures the handlers
/// raise themselves: a record of the wrong byte length, a record too small to
/// parse, too few supplied accounts, and arithmetic that exceeds the machine
/// word (where a computed amount or counter would not fit, the call aborts
/// with `ArithmeticOverflow` instead of corrupting any balance).
#[derive(Debug, Copy, Clone, PartialEq, Eq, Structural)]
pub enum ProgramFailure {
    Bidding(BiddingError),
    InvalidAccountData,
    AccountDataTooSmall,
    NotEnoughAccountKeys,
    ArithmeticOverflow,
}

} // verus!
