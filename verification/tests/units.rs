use bidding::addr::{Addr, game_pda_seeds, bid_pda_seeds, player_pda_seeds};
use bidding::codec::{
    serialize_game_state, serialize_game_body, deserialize_game_state, serialize_player_state,
    deserialize_player_state, serialize_bid, deserialize_bid, update_game_data,
    update_player_data,
};
use bidding::error::{BiddingError, ProgramFailure};
use bidding::instructions::{BiddingInstruction, serialize_instruction, deserialize_instruction};
use bidding::state::{Bid, GameState, PlayerState};
use solana_program::pubkey::Pubkey;

fn addr(fill: u8) -> Addr {
    Addr([fill; 32])
}

fn sample_game() -> GameState {
    GameState {
        game_id: 7,
        initial_bid_amount: 14_000_000,
        highest_bid: 28_000_000,
        last_bid_time: 1_700_000_000,
        total_bids: 2,
        last_bidder: addr(5),
        prize_pool: 42_000_000,
        platform_fee_percentage: 10,
        game_ended: false,
    }
}

#[test]
fn game_pda_matches_runtime_derivation() {
    let program = addr(3);
    let (a, bump) = game_pda_seeds(42, &program);
    let (pk, expected_bump) = Pubkey::find_program_address(
        &[b"game", &42u64.to_le_bytes()],
        &Pubkey::new_from_array([3; 32]),
    );
    assert_eq!(a.0, pk.to_bytes());
    assert_eq!(bump, expected_bump);
}

#[test]
fn bid_pda_matches_runtime_derivation() {
    let program = addr(3);
    let (a, bump) = bid_pda_seeds(42, 9, &program);
    let (pk, expected_bump) = Pubkey::find_program_address(
        &[b"bid", &42u64.to_le_bytes(), &9u64.to_le_bytes()],
        &Pubkey::new_from_array([3; 32]),
    );
    assert_eq!(a.0, pk.to_bytes());
    assert_eq!(bump, expected_bump);
}

#[test]
fn player_pda_matches_runtime_derivation() {
    let program = addr(3);
    let player = addr(8);
    let (a, bump) = player_pda_seeds(42, &player, 2, &program);
    let (pk, expected_bump) = Pubkey::find_program_address(
        &[b"player", &42u64.to_le_bytes(), &[8u8; 32], &2u64.to_le_bytes()],
        &Pubkey::new_from_array([3; 32]),
    );
    assert_eq!(a.0, pk.to_bytes());
    assert_eq!(bump, expected_bump);
}

#[test]
fn pdas_are_deterministic_and_distinct() {
    let program = addr(3);
    let (a1, b1) = game_pda_seeds(42, &program);
    let (a2, b2) = game_pda_seeds(42, &program);
    assert_eq!(a1.0, a2.0);
    assert_eq!(b1, b2);
    let (other_game, _) = game_pda_seeds(43, &program);
    assert_ne!(a1.0, other_game.0);
    let (bid, _) = bid_pda_seeds(42, 1, &program);
    assert_ne!(a1.0, bid.0);
    assert_ne!(a1.0, program.0);
}

#[test]
fn game_record_layout_matches_borsh() {
    let g = sample_game();
    let expected = borsh::to_vec(&(
        g.game_id,
        g.initial_bid_amount,
        g.highest_bid,
        g.last_bid_time,
        g.total_bids,
        g.last_bidder.0,
        g.prize_pool,
        g.platform_fee_percentage,
        g.game_ended,
    ))
    .unwrap();
    assert_eq!(serialize_game_body(&g), expected);
    let padded = serialize_game_state(&g);
    assert_eq!(padded.len(), 96);
    assert_eq!(&padded[..89], &expected[..]);
    assert_eq!(&padded[89..], &[0u8; 7]);
}

#[test]
fn player_record_layout_matches_borsh() {
    let p = PlayerState { total_bid_amount: 14_000_000, safe: true, royalty_earned: 3, bid_count: 2 };
    let expected = borsh::to_vec(&(p.total_bid_amount, p.safe, p.royalty_earned, p.bid_count)).unwrap();
    assert_eq!(serialize_player_state(&p), expected);
}

#[test]
fn bid_record_layout_matches_borsh() {
    let b = Bid { bidder: addr(4), amount: 28_000_000, timestamp: 77 };
    let expected = borsh::to_vec(&(b.bidder.0, b.amount, b.timestamp)).unwrap();
    assert_eq!(serialize_bid(&b), expected);
}

#[test]
fn game_record_round_trips() {
    let g = sample_game();
    let bytes = serialize_game_state(&g);
    let back = deserialize_game_state(&bytes).unwrap();
    assert_eq!(back.game_id, g.game_id);
    assert_eq!(back.initial_bid_amount, g.initial_bid_amount);
    assert_eq!(back.highest_bid, g.highest_bid);
    assert_eq!(back.last_bid_time, g.last_bid_time);
    assert_eq!(back.total_bids, g.total_bids);
    assert_eq!(back.last_bidder.0, g.last_bidder.0);
    assert_eq!(back.prize_pool, g.prize_pool);
    assert_eq!(back.platform_fee_percentage, g.platform_fee_percentage);
    assert_eq!(back.game_ended, g.game_ended);
}

#[test]
fn game_record_rejects_wrong_length() {
    let g = sample_game();
    let mut bytes = serialize_game_state(&g);
    bytes.pop();
    assert_eq!(deserialize_game_state(&bytes).unwrap_err(), ProgramFailure::InvalidAccountData);
}

#[test]
fn player_record_round_trips_with_padding() {
    let p = PlayerState { total_bid_amount: 5, safe: false, royalty_earned: 0, bid_count: 9 };
    let mut bytes = serialize_player_state(&p);
    bytes.resize(32, 0);
    let back = deserialize_player_state(&bytes).unwrap();
    assert_eq!(back.total_bid_amount, 5);
    assert!(!back.safe);
    assert_eq!(back.royalty_earned, 0);
    assert_eq!(back.bid_count, 9);
}

#[test]
fn player_record_rejects_short_data() {
    let bytes = vec![0u8; 31];
    assert_eq!(deserialize_player_state(&bytes).unwrap_err(), ProgramFailure::AccountDataTooSmall);
}

#[test]
fn bid_record_round_trips_and_rejects_wrong_length() {
    let b = Bid { bidder: addr(4), amount: 1, timestamp: 2 };
    let bytes = serialize_bid(&b);
    assert_eq!(bytes.len(), 48);
    let back = deserialize_bid(&bytes).unwrap();
    assert_eq!(back.bidder.0, b.bidder.0);
    assert_eq!(back.amount, 1);
    assert_eq!(back.timestamp, 2);
    let mut longer = bytes.clone();
    longer.push(0);
    assert!(deserialize_bid(&longer).is_none());
}

#[test]
fn update_preserves_record_tails() {
    let g = sample_game();
    let mut old = serialize_game_state(&g);
    old[90] = 0xAB;
    let mut g2 = g;
    g2.game_ended = true;
    let nd = update_game_data(&old, &g2);
    assert_eq!(nd.len(), 96);
    assert_eq!(nd[88], 1);
    assert_eq!(nd[90], 0xAB);

    let p = PlayerState { total_bid_amount: 5, safe: false, royalty_earned: 0, bid_count: 1 };
    let mut pd = serialize_player_state(&p);
    pd.resize(32, 0);
    pd[30] = 0xCD;
    let p2 = PlayerState { safe: true, royalty_earned: 7, ..p };
    let nd = update_player_data(&pd, &p2);
    assert_eq!(nd.len(), 32);
    assert_eq!(nd[8], 1);
    assert_eq!(nd[30], 0xCD);
}

#[test]
fn instruction_wire_format_is_tagged_little_endian() {
    let ins = BiddingInstruction::CreateGame { game_id: 42, initial_bid_amount: 14_000_000 };
    let bytes = serialize_instruction(&ins);
    let mut expected = vec![0u8];
    expected.extend_from_slice(&42u64.to_le_bytes());
    expected.extend_from_slice(&14_000_000u64.to_le_bytes());
    assert_eq!(bytes, expected);
    assert_eq!(deserialize_instruction(&bytes), Some(ins));

    let ins2 = BiddingInstruction::PlaceBid { bid_amount: 9, bid_count: 2 };
    let bytes2 = serialize_instruction(&ins2);
    assert_eq!(bytes2[0], 1);
    assert_eq!(deserialize_instruction(&bytes2), Some(ins2));
}

#[test]
fn instruction_rejects_bad_tag_and_length() {
    let mut bytes = serialize_instruction(&BiddingInstruction::PlaceBid {
        bid_amount: 9,
        bid_count: 2,
    });
    bytes[0] = 2;
    assert_eq!(deserialize_instruction(&bytes), None);
    bytes[0] = 1;
    bytes.pop();
    assert_eq!(deserialize_instruction(&bytes), None);
}

#[test]
fn error_codes_follow_declaration_order() {
    assert_eq!(BiddingError::InsufficientInitialBid.code(), 0);
    assert_eq!(BiddingError::GameEnded.code(), 4);
    assert_eq!(BiddingError::InsufficientBidAmount.code(), 5);
    assert_eq!(BiddingError::BidCountMismatch.code(), 13);
    assert_eq!(BiddingError::InvalidInstruction.code(), 21);
}

#[test]
fn addr_equality_is_bytewise() {
    let a = addr(7);
    let b = addr(7);
    let c = addr(8);
    assert!(a.equals(&b));
    assert!(!a.equals(&c));
}
