use bidding::addr::{Addr, game_pda_seeds, bid_pda_seeds, player_pda_seeds};
use bidding::codec::{serialize_game_state, deserialize_game_state, serialize_bid};
use bidding::error::{BiddingError, ProgramFailure};
use bidding::instructions::{
    create_game, place_bid, PlaceBidOutcome, BiddingInstruction, serialize_instruction,
};
use bidding::processor::{process_instruction, ProgramEffect};
use bidding::settle::{find_account, transfer_from_pda, fetch_bid_history};
use bidding::state::{Account, Bid};

fn addr(fill: u8) -> Addr {
    Addr([fill; 32])
}

fn acct(a: Addr, balance: u64, data: Vec<u8>) -> Account {
    Account { addr: a, balance, data }
}

const GAME_ID: u64 = 7;
const NOW: u64 = 1_700_000_000;

fn program() -> Addr {
    addr(9)
}

fn payer() -> Addr {
    addr(1)
}

fn create_accounts() -> Vec<Account> {
    let (game_pda, _) = game_pda_seeds(GAME_ID, &program());
    let (player_pda, _) = player_pda_seeds(GAME_ID, &payer(), 1, &program());
    let (bid_pda, _) = bid_pda_seeds(GAME_ID, 1, &program());
    vec![
        acct(game_pda, 0, vec![]),
        acct(payer(), 1_000_000_000, vec![]),
        acct(addr(0), 0, vec![]),
        acct(player_pda, 0, vec![]),
        acct(bid_pda, 0, vec![]),
    ]
}

#[test]
fn create_game_seeds_first_bid() {
    let accounts = create_accounts();
    let created = create_game(&program(), &accounts, GAME_ID, 14_000_000, NOW).unwrap();
    let g = created.game_state;
    assert_eq!(g.game_id, GAME_ID);
    assert_eq!(g.initial_bid_amount, 14_000_000);
    assert_eq!(g.highest_bid, 14_000_000);
    assert_eq!(g.prize_pool, 14_000_000);
    assert_eq!(g.last_bid_time, NOW);
    assert_eq!(g.total_bids, 1);
    assert_eq!(g.last_bidder.0, payer().0);
    assert_eq!(g.platform_fee_percentage, 10);
    assert!(!g.game_ended);
    assert_eq!(created.player_state.total_bid_amount, 14_000_000);
    assert!(!created.player_state.safe);
    assert_eq!(created.player_state.royalty_earned, 0);
    assert_eq!(created.player_state.bid_count, 1);
    assert_eq!(created.bid.bidder.0, payer().0);
    assert_eq!(created.bid.amount, 14_000_000);
    assert_eq!(created.bid.timestamp, NOW);
}

#[test]
fn create_game_rejects_low_opening_bid() {
    let accounts = create_accounts();
    let r = create_game(&program(), &accounts, GAME_ID, 13_999_999, NOW);
    assert_eq!(r.unwrap_err(), ProgramFailure::Bidding(BiddingError::InsufficientInitialBid));
}

#[test]
fn create_game_rejects_mismatched_addresses() {
    let mut accounts = create_accounts();
    accounts[0].addr = addr(0xEE);
    let r = create_game(&program(), &accounts, GAME_ID, 14_000_000, NOW);
    assert_eq!(r.unwrap_err(), ProgramFailure::Bidding(BiddingError::InvalidGameAccount));

    let mut accounts = create_accounts();
    accounts[3].addr = addr(0xEE);
    let r = create_game(&program(), &accounts, GAME_ID, 14_000_000, NOW);
    assert_eq!(r.unwrap_err(), ProgramFailure::Bidding(BiddingError::InvalidPlayerAccount));

    let mut accounts = create_accounts();
    accounts[4].addr = addr(0xEE);
    let r = create_game(&program(), &accounts, GAME_ID, 14_000_000, NOW);
    assert_eq!(r.unwrap_err(), ProgramFailure::Bidding(BiddingError::InvalidBidAccount));
}

#[test]
fn create_game_needs_five_accounts() {
    let mut accounts = create_accounts();
    accounts.pop();
    let r = create_game(&program(), &accounts, GAME_ID, 14_000_000, NOW);
    assert_eq!(r.unwrap_err(), ProgramFailure::NotEnoughAccountKeys);
}

/// The account list for a second bid: system, platform, game, bidder, new
/// bid record, new player record.
fn bid_accounts(game_data: Vec<u8>, bidder: Addr, seq: u64) -> Vec<Account> {
    let (game_pda, _) = game_pda_seeds(GAME_ID, &program());
    let (new_bid, _) = bid_pda_seeds(GAME_ID, seq, &program());
    let (new_player, _) = player_pda_seeds(GAME_ID, &bidder, seq, &program());
    vec![
        acct(addr(0), 0, vec![]),
        acct(addr(0xAA), 0, vec![]),
        acct(game_pda, 14_000_000, game_data),
        acct(bidder, 1_000_000_000, vec![]),
        acct(new_bid, 0, vec![]),
        acct(new_player, 0, vec![]),
    ]
}

fn opening_game_data() -> Vec<u8> {
    let accounts = create_accounts();
    let created = create_game(&program(), &accounts, GAME_ID, 14_000_000, NOW).unwrap();
    serialize_game_state(&created.game_state)
}

#[test]
fn place_bid_accepts_a_doubling_bid() {
    let bidder = addr(2);
    let mut accounts = bid_accounts(opening_game_data(), bidder, 2);
    let out = place_bid(&program(), &mut accounts, 28_000_000, 2, NOW + 10, 1).unwrap();
    match out {
        PlaceBidOutcome::BidPlaced { game_state, player_state, bid, .. } => {
            assert_eq!(game_state.highest_bid, 28_000_000);
            assert_eq!(game_state.prize_pool, 42_000_000);
            assert_eq!(game_state.total_bids, 2);
            assert_eq!(game_state.last_bid_time, NOW + 10);
            assert_eq!(game_state.last_bidder.0, bidder.0);
            assert_eq!(player_state.total_bid_amount, 28_000_000);
            assert_eq!(player_state.bid_count, 2);
            assert_eq!(bid.bidder.0, bidder.0);
            assert_eq!(bid.amount, 28_000_000);
            assert_eq!(bid.timestamp, NOW + 10);
        },
        PlaceBidOutcome::GameSettled => panic!("expected an accepted bid"),
    }
    // The game record in place was rewritten to the new state.
    let stored = deserialize_game_state(&accounts[2].data).unwrap();
    assert_eq!(stored.highest_bid, 28_000_000);
    assert_eq!(stored.prize_pool, 42_000_000);
    assert_eq!(stored.total_bids, 2);
}

#[test]
fn place_bid_rejects_non_doubling_bid_and_changes_nothing() {
    let bidder = addr(2);
    let mut accounts = bid_accounts(opening_game_data(), bidder, 2);
    let before = accounts[2].data.clone();
    let r = place_bid(&program(), &mut accounts, 27_999_999, 2, NOW + 10, 1);
    assert_eq!(r.unwrap_err(), ProgramFailure::Bidding(BiddingError::InsufficientBidAmount));
    assert_eq!(accounts[2].data, before);
}

#[test]
fn place_bid_rejects_stale_sequence_number() {
    let bidder = addr(2);
    // First of two racing bids lands.
    let mut accounts = bid_accounts(opening_game_data(), bidder, 2);
    place_bid(&program(), &mut accounts, 28_000_000, 2, NOW + 10, 1).unwrap();
    let game_data = accounts[2].data.clone();
    // The second declares the same sequence number and loses.
    let loser = addr(3);
    let mut accounts2 = bid_accounts(game_data, loser, 2);
    let r = place_bid(&program(), &mut accounts2, 56_000_000, 2, NOW + 20, 1);
    assert_eq!(r.unwrap_err(), ProgramFailure::Bidding(BiddingError::BidCountMismatch));
}

#[test]
fn place_bid_rejects_ended_game() {
    let accounts = create_accounts();
    let created = create_game(&program(), &accounts, GAME_ID, 14_000_000, NOW).unwrap();
    let mut ended = created.game_state;
    ended.game_ended = true;
    let mut accounts = bid_accounts(serialize_game_state(&ended), addr(2), 2);
    let r = place_bid(&program(), &mut accounts, 28_000_000, 2, NOW + 10, 1);
    assert_eq!(r.unwrap_err(), ProgramFailure::Bidding(BiddingError::GameEnded));
}

#[test]
fn place_bid_rejects_mismatched_new_addresses() {
    let bidder = addr(2);
    let mut accounts = bid_accounts(opening_game_data(), bidder, 2);
    accounts[5].addr = addr(0xEE);
    let r = place_bid(&program(), &mut accounts, 28_000_000, 2, NOW + 10, 1);
    assert_eq!(r.unwrap_err(), ProgramFailure::Bidding(BiddingError::InvalidNewPlayerAccount));

    let mut accounts = bid_accounts(opening_game_data(), bidder, 2);
    accounts[4].addr = addr(0xEE);
    let r = place_bid(&program(), &mut accounts, 28_000_000, 2, NOW + 10, 1);
    assert_eq!(r.unwrap_err(), ProgramFailure::Bidding(BiddingError::InvalidNewBidAccount));
}

#[test]
fn place_bid_rejects_malformed_game_record() {
    let mut accounts = bid_accounts(vec![0u8; 95], addr(2), 2);
    let r = place_bid(&program(), &mut accounts, 28_000_000, 2, NOW + 10, 1);
    assert_eq!(r.unwrap_err(), ProgramFailure::InvalidAccountData);
}

#[test]
fn place_bid_needs_six_accounts() {
    let mut accounts = bid_accounts(opening_game_data(), addr(2), 2);
    accounts.pop();
    let r = place_bid(&program(), &mut accounts, 28_000_000, 2, NOW + 10, 1);
    assert_eq!(r.unwrap_err(), ProgramFailure::NotEnoughAccountKeys);
}

#[test]
fn place_bid_aborts_on_overflowing_double() {
    let accounts = create_accounts();
    let created = create_game(&program(), &accounts, GAME_ID, 14_000_000, NOW).unwrap();
    let mut huge = created.game_state;
    huge.highest_bid = u64::MAX / 2 + 1;
    let mut accounts = bid_accounts(serialize_game_state(&huge), addr(2), 2);
    let r = place_bid(&program(), &mut accounts, u64::MAX, 2, NOW + 10, 1);
    assert_eq!(r.unwrap_err(), ProgramFailure::ArithmeticOverflow);
}

#[test]
fn find_account_reports_first_match_or_absence() {
    let accounts = vec![acct(addr(1), 0, vec![]), acct(addr(2), 7, vec![]), acct(addr(2), 9, vec![])];
    assert_eq!(find_account(&addr(2), &accounts).unwrap(), 1);
    assert_eq!(find_account(&addr(5), &accounts).unwrap_err(), BiddingError::AccountNotFound);
}

#[test]
fn transfer_moves_exactly_the_amount() {
    let mut accounts = vec![acct(addr(1), 100, vec![]), acct(addr(2), 7, vec![])];
    transfer_from_pda(&mut accounts, 0, 1, 30).unwrap();
    assert_eq!(accounts[0].balance, 70);
    assert_eq!(accounts[1].balance, 37);
}

#[test]
fn transfer_refuses_overdraw_and_overflow() {
    let mut accounts = vec![acct(addr(1), 100, vec![]), acct(addr(2), 7, vec![])];
    let r = transfer_from_pda(&mut accounts, 0, 1, 101);
    assert_eq!(r.unwrap_err(), ProgramFailure::Bidding(BiddingError::InsufficientFunds));
    assert_eq!(accounts[0].balance, 100);

    let mut accounts = vec![acct(addr(1), 100, vec![]), acct(addr(2), u64::MAX, vec![])];
    let r = transfer_from_pda(&mut accounts, 0, 1, 1);
    assert_eq!(r.unwrap_err(), ProgramFailure::ArithmeticOverflow);
    assert_eq!(accounts[1].balance, u64::MAX);
}

#[test]
fn fetch_bid_history_replays_records_in_order() {
    let (b1, _) = bid_pda_seeds(GAME_ID, 1, &program());
    let (b2, _) = bid_pda_seeds(GAME_ID, 2, &program());
    let r1 = Bid { bidder: addr(1), amount: 14_000_000, timestamp: NOW };
    let r2 = Bid { bidder: addr(2), amount: 28_000_000, timestamp: NOW + 10 };
    let accounts = vec![
        acct(b2, 0, serialize_bid(&r2)),
        acct(b1, 0, serialize_bid(&r1)),
    ];
    let history = fetch_bid_history(&program(), GAME_ID, 2, &accounts).unwrap();
    assert_eq!(history.len(), 2);
    assert_eq!(history[0].amount, 14_000_000);
    assert_eq!(history[1].amount, 28_000_000);
    assert_eq!(history[0].bidder.0, addr(1).0);
}

#[test]
fn fetch_bid_history_reports_each_gap() {
    let (b1, _) = bid_pda_seeds(GAME_ID, 1, &program());
    let r1 = Bid { bidder: addr(1), amount: 14_000_000, timestamp: NOW };
    let accounts = vec![acct(b1, 0, serialize_bid(&r1))];
    let r = fetch_bid_history(&program(), GAME_ID, 2, &accounts);
    assert_eq!(r.unwrap_err(), ProgramFailure::Bidding(BiddingError::BidAccountNotFound));

    let accounts = vec![acct(b1, 0, vec![])];
    let r = fetch_bid_history(&program(), GAME_ID, 1, &accounts);
    assert_eq!(r.unwrap_err(), ProgramFailure::Bidding(BiddingError::BidAccountNotInitialized));

    let accounts = vec![acct(b1, 0, vec![1, 2, 3])];
    let r = fetch_bid_history(&program(), GAME_ID, 1, &accounts);
    assert_eq!(r.unwrap_err(), ProgramFailure::Bidding(BiddingError::FailedToDeserializeBidData));
}

#[test]
fn process_instruction_dispatches_both_operations() {
    let mut accounts = create_accounts();
    let data = serialize_instruction(&BiddingInstruction::CreateGame {
        game_id: GAME_ID,
        initial_bid_amount: 14_000_000,
    });
    let effect = process_instruction(&program(), &mut accounts, &data, NOW, 1).unwrap();
    let game_data = match effect {
        ProgramEffect::Created(c) => serialize_game_state(&c.game_state),
        ProgramEffect::Bid(_) => panic!("expected a created game"),
    };

    let mut accounts = bid_accounts(game_data, addr(2), 2);
    let data = serialize_instruction(&BiddingInstruction::PlaceBid {
        bid_amount: 28_000_000,
        bid_count: 2,
    });
    let effect = process_instruction(&program(), &mut accounts, &data, NOW + 10, 1).unwrap();
    match effect {
        ProgramEffect::Bid(PlaceBidOutcome::BidPlaced { game_state, .. }) => {
            assert_eq!(game_state.prize_pool, 42_000_000);
        },
        _ => panic!("expected an accepted bid"),
    }
}

#[test]
fn process_instruction_rejects_undecodable_input() {
    let mut accounts = create_accounts();
    let data = vec![9u8; 17];
    let r = process_instruction(&program(), &mut accounts, &data, NOW, 1);
    assert_eq!(r.unwrap_err(), ProgramFailure::Bidding(BiddingError::InvalidInstruction));
}
