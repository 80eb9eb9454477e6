use bidding::addr::{Addr, game_pda_seeds, bid_pda_seeds, player_pda_seeds};
use bidding::codec::{
    serialize_game_state, deserialize_game_state, serialize_bid, serialize_player_state,
    deserialize_player_state,
};
use bidding::error::{BiddingError, ProgramFailure};
use bidding::instructions::{create_game, place_bid, PlaceBidOutcome};
use bidding::state::{Account, Bid, GameState, PlayerState};

fn addr(fill: u8) -> Addr {
    Addr([fill; 32])
}

fn acct(a: Addr, balance: u64, data: Vec<u8>) -> Account {
    Account { addr: a, balance, data }
}

const GAME_ID: u64 = 7;
const NOW: u64 = 1_700_000_000;
const RENT: u64 = 1_000_000;

fn program() -> Addr {
    addr(9)
}

fn payer() -> Addr {
    addr(1)
}

fn platform() -> Addr {
    addr(0xAA)
}

fn system() -> Addr {
    addr(0)
}

/// One record per accepted bid, as the driver accumulates them: the bid
/// record, its bidder, and the player snapshot with its derived address.
struct GameRun {
    game_data: Vec<u8>,
    bids: Vec<Bid>,
    players: Vec<(Addr, Vec<u8>)>,
}

fn padded_player(p: &PlayerState) -> Vec<u8> {
    let mut d = serialize_player_state(p);
    d.resize(32, 0);
    d
}

fn open_game() -> GameRun {
    let (game_pda, _) = game_pda_seeds(GAME_ID, &program());
    let (player_pda, _) = player_pda_seeds(GAME_ID, &payer(), 1, &program());
    let (bid_pda, _) = bid_pda_seeds(GAME_ID, 1, &program());
    let accounts = vec![
        acct(game_pda, 0, vec![]),
        acct(payer(), 0, vec![]),
        acct(system(), 0, vec![]),
        acct(player_pda, 0, vec![]),
        acct(bid_pda, 0, vec![]),
    ];
    let created = create_game(&program(), &accounts, GAME_ID, 14_000_000, NOW).unwrap();
    GameRun {
        game_data: serialize_game_state(&created.game_state),
        bids: vec![created.bid],
        players: vec![(player_pda, padded_player(&created.player_state))],
    }
}

fn accept_bid(run: &mut GameRun, bidder: Addr, seq: u64, amount: u64, now: u64) {
    let (game_pda, _) = game_pda_seeds(GAME_ID, &program());
    let (new_bid, _) = bid_pda_seeds(GAME_ID, seq, &program());
    let (new_player, _) = player_pda_seeds(GAME_ID, &bidder, seq, &program());
    let mut accounts = vec![
        acct(system(), 0, vec![]),
        acct(platform(), 0, vec![]),
        acct(game_pda, 0, run.game_data.clone()),
        acct(bidder, 0, vec![]),
        acct(new_bid, 0, vec![]),
        acct(new_player, 0, vec![]),
    ];
    match place_bid(&program(), &mut accounts, amount, seq, now, RENT).unwrap() {
        PlaceBidOutcome::BidPlaced { bid, player_state, .. } => {
            run.game_data = accounts[2].data.clone();
            run.bids.push(bid);
            run.players.push((new_player, padded_player(&player_state)));
        },
        PlaceBidOutcome::GameSettled => panic!("expected an accepted bid"),
    }
}

/// The account list for a settlement-triggering call: the three fixed
/// accounts, then every bidder wallet, bid record, and player snapshot.
fn settle_accounts(run: &GameRun, game_balance: u64, winner_wallet_data: Vec<u8>) -> Vec<Account> {
    let (game_pda, _) = game_pda_seeds(GAME_ID, &program());
    let mut accounts = vec![
        acct(system(), 0, vec![]),
        acct(platform(), 0, vec![]),
        acct(game_pda, game_balance, run.game_data.clone()),
    ];
    let winner = run.bids.last().unwrap().bidder;
    for b in &run.bids {
        if b.bidder.0 != winner.0 {
            accounts.push(acct(b.bidder, 0, vec![]));
        }
    }
    accounts.push(acct(winner, 0, winner_wallet_data));
    for (i, b) in run.bids.iter().enumerate() {
        let (bid_pda, _) = bid_pda_seeds(GAME_ID, (i + 1) as u64, &program());
        accounts.push(acct(bid_pda, 0, serialize_bid(b)));
    }
    for (pda, data) in &run.players {
        accounts.push(acct(*pda, 0, data.clone()));
    }
    accounts
}

fn idx_of(accounts: &[Account], a: Addr) -> usize {
    accounts.iter().position(|x| x.addr.0 == a.0).unwrap()
}

fn four_bid_run() -> GameRun {
    let mut run = open_game();
    accept_bid(&mut run, addr(11), 2, 28_000_000, NOW + 10);
    accept_bid(&mut run, addr(12), 3, 56_000_000, NOW + 20);
    accept_bid(&mut run, addr(13), 4, 112_000_000, NOW + 30);
    run
}

fn six_bid_run() -> GameRun {
    let mut run = open_game();
    accept_bid(&mut run, addr(21), 2, 28_000_000, NOW + 10);
    accept_bid(&mut run, addr(22), 3, 56_000_000, NOW + 20);
    accept_bid(&mut run, addr(23), 4, 112_000_000, NOW + 30);
    accept_bid(&mut run, addr(24), 5, 224_000_000, NOW + 40);
    accept_bid(&mut run, addr(25), 6, 448_000_000, NOW + 50);
    run
}

#[test]
fn short_game_settlement_splits_pot_ninety_ten() {
    let run = four_bid_run();
    // Pot: 14 + 28 + 56 + 112 million.
    let mut accounts = settle_accounts(&run, 210_000_000, vec![]);
    let out = place_bid(&program(), &mut accounts, 0, 0, NOW + 30 + 301, RENT).unwrap();
    assert!(matches!(out, PlaceBidOutcome::GameSettled));
    assert_eq!(accounts[idx_of(&accounts, platform())].balance, 21_000_000);
    assert_eq!(accounts[idx_of(&accounts, addr(13))].balance, 189_000_000);
    assert_eq!(accounts[2].balance, 0);
    let g = deserialize_game_state(&accounts[2].data).unwrap();
    assert!(g.game_ended);
    // No royalty phase ran: the earlier bidders got nothing.
    assert_eq!(accounts[idx_of(&accounts, payer())].balance, 0);
    assert_eq!(accounts[idx_of(&accounts, addr(11))].balance, 0);
}

#[test]
fn timeout_settles_instead_of_bidding() {
    let run = four_bid_run();
    let mut accounts = settle_accounts(&run, 210_000_000, vec![]);
    // A perfectly valid doubling bid arrives after the window: it settles.
    let out = place_bid(&program(), &mut accounts, 224_000_000, 5, NOW + 30 + 301, RENT).unwrap();
    assert!(matches!(out, PlaceBidOutcome::GameSettled));
    let g = deserialize_game_state(&accounts[2].data).unwrap();
    assert!(g.game_ended);
    // No new bid record exists: the counter still reads four.
    assert_eq!(g.total_bids, 4);
    let history =
        bidding::settle::fetch_bid_history(&program(), GAME_ID, g.total_bids, &accounts).unwrap();
    assert_eq!(history.len(), 4);
}

#[test]
fn settlement_is_idempotent() {
    let run = four_bid_run();
    let mut accounts = settle_accounts(&run, 210_000_000, vec![]);
    let out = place_bid(&program(), &mut accounts, 0, 0, NOW + 30 + 301, RENT).unwrap();
    assert!(matches!(out, PlaceBidOutcome::GameSettled));
    let before: Vec<u64> = accounts.iter().map(|a| a.balance).collect();
    let r = place_bid(&program(), &mut accounts, 0, 0, NOW + 30 + 400, RENT);
    assert_eq!(r.unwrap_err(), ProgramFailure::Bidding(BiddingError::GameEnded));
    let after: Vec<u64> = accounts.iter().map(|a| a.balance).collect();
    assert_eq!(before, after);
}

#[test]
fn long_game_settlement_pays_royalties_fee_and_residual() {
    let run = six_bid_run();
    // Pot: 882 million, plus the rent floor kept by the game account.
    let mut accounts = settle_accounts(&run, 882_000_000 + RENT, vec![0u8; 32]);
    let out = place_bid(&program(), &mut accounts, 0, 0, NOW + 50 + 301, RENT).unwrap();
    assert!(matches!(out, PlaceBidOutcome::GameSettled));
    // Fee: 10% of the last five bids (868 million).
    assert_eq!(accounts[idx_of(&accounts, platform())].balance, 86_800_000);
    // The sole eligible bidder gets their bid back plus the whole royalty
    // pool: royalty_pool = bid #3 = 56 million; weight 1, share 56 million.
    assert_eq!(accounts[idx_of(&accounts, payer())].balance, 70_000_000);
    // The winner takes the residual escrow above the rent floor.
    assert_eq!(accounts[idx_of(&accounts, addr(25))].balance, 725_200_000);
    assert_eq!(accounts[2].balance, RENT);
    // The eligible bidder's snapshot is safe and enriched by the share.
    let (p1, _) = player_pda_seeds(GAME_ID, &payer(), 1, &program());
    let ps = deserialize_player_state(&accounts[idx_of(&accounts, p1)].data).unwrap();
    assert!(ps.safe);
    assert_eq!(ps.royalty_earned, 56_000_000);
    assert_eq!(ps.total_bid_amount, 14_000_000);
    // The winner's record is marked safe with the payout added.
    let ws = deserialize_player_state(&accounts[idx_of(&accounts, addr(25))].data).unwrap();
    assert!(ws.safe);
    assert_eq!(ws.royalty_earned, 725_200_000);
    let g = deserialize_game_state(&accounts[2].data).unwrap();
    assert!(g.game_ended);
}

#[test]
fn settlement_aborts_without_escrow() {
    let run = four_bid_run();
    let mut accounts = settle_accounts(&run, 0, vec![]);
    let r = place_bid(&program(), &mut accounts, 0, 0, NOW + 30 + 301, RENT);
    assert_eq!(r.unwrap_err(), ProgramFailure::Bidding(BiddingError::InsufficientFunds));
    // Nothing moved and the game did not end.
    assert_eq!(accounts[idx_of(&accounts, platform())].balance, 0);
    let g = deserialize_game_state(&accounts[2].data).unwrap();
    assert!(!g.game_ended);
}

#[test]
fn settlement_needs_the_winner_account() {
    let run = four_bid_run();
    let winner = run.bids.last().unwrap().bidder;
    let mut accounts = settle_accounts(&run, 210_000_000, vec![]);
    accounts.retain(|a| a.addr.0 != winner.0);
    let r = place_bid(&program(), &mut accounts, 0, 0, NOW + 30 + 301, RENT);
    assert_eq!(r.unwrap_err(), ProgramFailure::Bidding(BiddingError::BidderAccountNotFound));
}

#[test]
fn settlement_needs_the_whole_history() {
    let run = four_bid_run();
    let (b3, _) = bid_pda_seeds(GAME_ID, 3, &program());
    let mut accounts = settle_accounts(&run, 210_000_000, vec![]);
    accounts.retain(|a| a.addr.0 != b3.0);
    let r = place_bid(&program(), &mut accounts, 0, 0, NOW + 30 + 301, RENT);
    assert_eq!(r.unwrap_err(), ProgramFailure::Bidding(BiddingError::BidAccountNotFound));
}

#[test]
fn royalty_phase_needs_the_eligible_bidder_wallet() {
    let run = six_bid_run();
    let mut accounts = settle_accounts(&run, 882_000_000 + RENT, vec![0u8; 32]);
    accounts.retain(|a| a.addr.0 != payer().0);
    let r = place_bid(&program(), &mut accounts, 0, 0, NOW + 50 + 301, RENT);
    assert_eq!(r.unwrap_err(), ProgramFailure::Bidding(BiddingError::BidderAccountNotFound));
}

#[test]
fn royalty_phase_needs_the_player_snapshot() {
    let run = six_bid_run();
    let (p1, _) = player_pda_seeds(GAME_ID, &payer(), 1, &program());
    let mut accounts = settle_accounts(&run, 882_000_000 + RENT, vec![0u8; 32]);
    accounts.retain(|a| a.addr.0 != p1.0);
    let r = place_bid(&program(), &mut accounts, 0, 0, NOW + 50 + 301, RENT);
    assert_eq!(r.unwrap_err(), ProgramFailure::Bidding(BiddingError::AccountNotFound));
}

#[test]
fn long_settlement_needs_a_readable_winner_record() {
    let run = six_bid_run();
    // The winner's wallet has no parseable player record behind it.
    let mut accounts = settle_accounts(&run, 882_000_000 + RENT, vec![]);
    let r = place_bid(&program(), &mut accounts, 0, 0, NOW + 50 + 301, RENT);
    assert_eq!(r.unwrap_err(), ProgramFailure::AccountDataTooSmall);
    // And the abort left every balance in place.
    assert_eq!(accounts[2].balance, 882_000_000 + RENT);
    assert_eq!(accounts[idx_of(&accounts, payer())].balance, 0);
}

#[test]
fn settlement_of_an_empty_history_reports_no_bids() {
    let g = GameState {
        game_id: GAME_ID,
        initial_bid_amount: 14_000_000,
        highest_bid: 14_000_000,
        last_bid_time: NOW,
        total_bids: 0,
        last_bidder: payer(),
        prize_pool: 14_000_000,
        platform_fee_percentage: 10,
        game_ended: false,
    };
    let (game_pda, _) = game_pda_seeds(GAME_ID, &program());
    let mut accounts = vec![
        acct(system(), 0, vec![]),
        acct(platform(), 0, vec![]),
        acct(game_pda, 14_000_000, serialize_game_state(&g)),
        acct(payer(), 0, vec![]),
        acct(addr(0xE1), 0, vec![]),
        acct(addr(0xE2), 0, vec![]),
    ];
    let r = place_bid(&program(), &mut accounts, 0, 0, NOW + 301 + 1, RENT);
    assert_eq!(r.unwrap_err(), ProgramFailure::Bidding(BiddingError::NoBidsFound));
}
