use vstd::prelude::*;
use crate::addr::Addr;

verus! {

/// Byte length of a game record's storage: the 89 meaningful bytes of the
/// layout rounded up to the record's allocation size.
pub const GAME_ACCOUNT_SIZE: usize = 96;

/// Byte length of a player record's storage (25 meaningful bytes, padded).
pub const PLAYER_ACCOUNT_SIZE: usize = 32;

/// Byte length of a bid record's storage; every byte is meaningful.
pub const BID_ACCOUNT_SIZE: usize = 48;

/// The meaningful prefix of a serialized game record.
pub const GAME_RECORD_BYTES: usize = 89;

/// The meaningful prefix of a serialized player record.
pub const PLAYER_RECORD_BYTES: usize = 25;

/// The single mutable record of one auction.
#[derive(Debug, Clone, Copy)]
pub struct GameState {
    pub game_id: u64,
    pub initial_bid_amount: u64,
    pub highest_bid: u64,
    pub last_bid_time: u64,
    pub total_bids: u64,
    pub last_bidder: Addr,
    pub prize_pool: u64,
    pub platform_fee_percentage: u64,
    pub game_ended: bool,
}

/// The mathematical image of a game record: the address field as its byte
/// sequence, everything else as is.
pub struct GameStateV {
    pub game_id: u64,
    pub initial_bid_amount: u64,
    pub highest_bid: u64,
    pub last_bid_time: u64,
    pub total_bids: u64,
    pub last_bidder: Seq<u8>,
    pub prize_pool: u64,
    pub platform_fee_percentage: u64,
    pub game_ended: bool,
}

impl View for GameState {
    type V = GameStateV;

    open spec fn view(&self) -> GameStateV {
        GameStateV {
            game_id: self.game_id,
            initial_bid_amount: self.initial_bid_amount,
            highest_bid: self.highest_bid,
            last_bid_time: self.last_bid_time,
            total_bids: self.total_bids,
            last_bidder: self.last_bidder@,
            prize_pool: self.prize_pool,
            platform_fee_percentage: self.platform_fee_percentage,
            game_ended: self.game_ended,
        }
    }
}

impl GameStateV {
    /// What creation establishes and every accepted bid preserves: the game
    /// was seeded with bid number one, and the fee share is fixed at ten
    /// percent.
    pub open spec fn wf(&self) -> bool {
        &&& self.total_bids >= 1
        &&& self.platform_fee_percentage == 10
    }
}

/// One per-bid snapshot of a bidder. `safe` and `royalty_earned` are written
/// only by settlement.
#[derive(Debug, Clone, Copy)]
pub struct PlayerState {
    pub total_bid_amount: u64,
    pub safe: bool,
    pub royalty_earned: u64,
    pub bid_count: u64,
}

/// One immutable record per accepted bid; the append-only trail settlement
/// replays.
#[derive(Debug, Clone, Copy)]
pub struct Bid {
    pub bidder: Addr,
    pub amount: u64,
    pub timestamp: u64,
}

/// The mathematical image of a bid record.
pub struct BidV {
    pub bidder: Seq<u8>,
    pub amount: u64,
    pub timestamp: u64,
}

impl View for Bid {
    type V = BidV;

    open spec fn view(&self) -> BidV {
        BidV { bidder: self.bidder@, amount: self.amount, timestamp: self.timestamp }
    }
}

/// A ledger account as an instruction sees it: its address, its native-token
/// balance, and its raw record bytes.
#[derive(Debug)]
pub struct Account {
    pub addr: Addr,
    pub balance: u64,
    pub data: Vec<u8>,
}

/// The mathematical image of an account.
pub struct AccountV {
    pub addr: Seq<u8>,
    pub balance: u64,
    pub data: Seq<u8>,
}

impl View for Account {
    type V = AccountV;

    open spec fn view(&self) -> AccountV {
        AccountV { addr: self.addr@, balance: self.balance, data: self.data@ }
    }
}

/// The account list a call works on, as a sequence of account images.
pub open spec fn accounts_v(s: Seq<Account>) -> Seq<AccountV> {
    s.map_values(|a: Account| a@)
}

/// The image of a bid list.
pub open spec fn bids_v(s: Seq<Bid>) -> Seq<BidV> {
    s.map_values(|b: Bid| b@)
}

} // verus!
