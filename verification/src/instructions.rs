use vstd::prelude::*;
use vstd::bytes::{spec_u64_to_le_bytes, spec_u64_from_le_bytes, lemma_auto_spec_u64_to_from_le_bytes};
use crate::addr::{
    Addr, spec_game_pda, spec_bid_pda, spec_player_pda, game_pda_seeds, bid_pda_seeds,
    player_pda_seeds,
};
use crate::codec::{
    spec_deser_game, spec_game_data_updated, deserialize_game_state, update_game_data, read_u64,
};
use crate::error::{BiddingError, ProgramFailure};
use crate::settle::{spec_end_game, end_game, account_out, account_back, lemma_remove_insert,
    lemma_accounts_v_update};
use crate::state::{
    Account, AccountV, Bid, BidV, GameState, GameStateV, PlayerState, accounts_v,
    GAME_ACCOUNT_SIZE,
};

verus! {

/// The two operations a caller can submit, as carried on the wire: one tag
/// byte (in declaration order) followed by the fields, little endian.
#[derive(Debug, Clone, Copy, PartialEq, Eq, Structural)]
pub enum BiddingInstruction {
    CreateGame { game_id: u64, initial_bid_amount: u64 },
    PlaceBid { bid_amount: u64, bid_count: u64 },
}

/// An encoded instruction: 17 bytes.
pub open spec fn spec_ser_instruction(ins: BiddingInstruction) -> Seq<u8> {
    match ins {
        BiddingInstruction::CreateGame { game_id, initial_bid_amount } => seq![0u8]
            + spec_u64_to_le_bytes(game_id) + spec_u64_to_le_bytes(initial_bid_amount),
        BiddingInstruction::PlaceBid { bid_amount, bid_count } => seq![1u8] + spec_u64_to_le_bytes(
            bid_amount,
        ) + spec_u64_to_le_bytes(bid_count),
    }
}

/// Decoding an instruction: exactly 17 bytes and a known tag, or nothing.
pub open spec fn spec_deser_instruction(d: Seq<u8>) -> Option<BiddingInstruction> {
    if d.len() != 17 {
        None
    } else if d[0] == 0 {
        Some(
            BiddingInstruction::CreateGame {
                game_id: spec_u64_from_le_bytes(d.subrange(1, 9)),
                initial_bid_amount: spec_u64_from_le_bytes(d.subrange(9, 17)),
            },
        )
    } else if d[0] == 1 {
        Some(
            BiddingInstruction::PlaceBid {
                bid_amount: spec_u64_from_le_bytes(d.subrange(1, 9)),
                bid_count: spec_u64_from_le_bytes(d.subrange(9, 17)),
            },
        )
    } else {
        None
    }
}

/// Encodes an instruction for the wire.
pub fn serialize_instruction(ins: &BiddingInstruction) -> (v: Vec<u8>)
    ensures
        v@ == spec_ser_instruction(*ins),
        v@.len() == 17,
{
    proof {
        lemma_auto_spec_u64_to_from_le_bytes();
    }
    let mut v: Vec<u8> = Vec::new();
    match ins {
        BiddingInstruction::CreateGame { game_id, initial_bid_amount } => {
            v.push(0);
            let mut b = vstd::bytes::u64_to_le_bytes(*game_id);
            v.append(&mut b);
            let mut b2 = vstd::bytes::u64_to_le_bytes(*initial_bid_amount);
            v.append(&mut b2);
            proof {
                assert(seq![0u8] =~= Seq::<u8>::empty().push(0u8));
                assert(v@ =~= spec_ser_instruction(*ins));
            }
        },
        BiddingInstruction::PlaceBid { bid_amount, bid_count } => {
            v.push(1);
            let mut b = vstd::bytes::u64_to_le_bytes(*bid_amount);
            v.append(&mut b);
            let mut b2 = vstd::bytes::u64_to_le_bytes(*bid_count);
            v.append(&mut b2);
            proof {
                assert(v@ =~= spec_ser_instruction(*ins));
            }
        },
    }
    v
}

/// Decodes an instruction from the wire.
pub fn deserialize_instruction(data: &Vec<u8>) -> (r: Option<BiddingInstruction>)
    ensures
        r == spec_deser_instruction(data@),
{
    proof {
        lemma_auto_spec_u64_to_from_le_bytes();
    }
    if data.len() != 17 {
        return None;
    }
    let tag = data[0];
    let a = read_u64(data, 1);
    let b = read_u64(data, 9);
    if tag == 0 {
        Some(BiddingInstruction::CreateGame { game_id: a, initial_bid_amount: b })
    } else if tag == 1 {
        Some(BiddingInstruction::PlaceBid { bid_amount: a, bid_count: b })
    } else {
        None
    }
}

/// An encoded instruction reads back unchanged.
pub proof fn lemma_instruction_roundtrip(ins: BiddingInstruction)
    ensures
        spec_deser_instruction(spec_ser_instruction(ins)) == Some(ins),
{
    lemma_auto_spec_u64_to_from_le_bytes();
    let d = spec_ser_instruction(ins);
    match ins {
        BiddingInstruction::CreateGame { game_id, initial_bid_amount } => {
            assert(d.subrange(1, 9) =~= spec_u64_to_le_bytes(game_id));
            assert(d.subrange(9, 17) =~= spec_u64_to_le_bytes(initial_bid_amount));
        },
        BiddingInstruction::PlaceBid { bid_amount, bid_count } => {
            assert(d.subrange(1, 9) =~= spec_u64_to_le_bytes(bid_amount));
            assert(d.subrange(9, 17) =~= spec_u64_to_le_bytes(bid_count));
        },
    }
}

// ---------------------------------------------------------------------------
// Creating a game. The records to create and fund are returned for the
// runtime to carry out; nothing in the supplied accounts changes here.
// ---------------------------------------------------------------------------

/// Everything the runtime must create to open a game: the three records and
/// the bump of each derived address.
#[derive(Debug, Clone, Copy)]
pub struct CreatedGame {
    pub game_state: GameState,
    pub player_state: PlayerState,
    pub bid: Bid,
    pub game_bump: u8,
    pub player_bump: u8,
    pub bid_bump: u8,
}

/// The mathematical image of a `CreatedGame`.
pub struct CreatedGameV {
    pub game_state: GameStateV,
    pub player_state: PlayerState,
    pub bid: BidV,
    pub game_bump: u8,
    pub player_bump: u8,
    pub bid_bump: u8,
}

impl View for CreatedGame {
    type V = CreatedGameV;

    open spec fn view(&self) -> CreatedGameV {
        CreatedGameV {
            game_state: self.game_state@,
            player_state: self.player_state,
            bid: self.bid@,
            game_bump: self.game_bump,
            player_bump: self.player_bump,
            bid_bump: self.bid_bump,
        }
    }
}

/// What creating a game means: the opening amount meets the minimum, all
/// three supplied addresses re-derive, and the records seed bid number one
/// with the payer as first bidder and leader.
pub open spec fn spec_create_game(
    program: Seq<u8>,
    s: Seq<AccountV>,
    game_id: u64,
    initial_bid_amount: u64,
    now: u64,
) -> Result<CreatedGameV, ProgramFailure> {
    if s.len() < 5 {
        Err(ProgramFailure::NotEnoughAccountKeys)
    } else if initial_bid_amount < crate::MIN_INITIAL_BID {
        Err(ProgramFailure::Bidding(BiddingError::InsufficientInitialBid))
    } else {
        let payer = s[1].addr;
        if s[0].addr != spec_game_pda(game_id, program).0 {
            Err(ProgramFailure::Bidding(BiddingError::InvalidGameAccount))
        } else if s[3].addr != spec_player_pda(game_id, payer, 1, program).0 {
            Err(ProgramFailure::Bidding(BiddingError::InvalidPlayerAccount))
        } else if s[4].addr != spec_bid_pda(game_id, 1, program).0 {
            Err(ProgramFailure::Bidding(BiddingError::InvalidBidAccount))
        } else {
            Ok(
                CreatedGameV {
                    game_state: GameStateV {
                        game_id,
                        initial_bid_amount,
                        highest_bid: initial_bid_amount,
                        last_bid_time: now,
                        total_bids: 1,
                        last_bidder: payer,
                        prize_pool: initial_bid_amount,
                        platform_fee_percentage: 10,
                        game_ended: false,
                    },
                    player_state: PlayerState {
                        total_bid_amount: initial_bid_amount,
                        safe: false,
                        royalty_earned: 0,
                        bid_count: 1,
                    },
                    bid: BidV { bidder: payer, amount: initial_bid_amount, timestamp: now },
                    game_bump: spec_game_pda(game_id, program).1,
                    player_bump: spec_player_pda(game_id, payer, 1, program).1,
                    bid_bump: spec_bid_pda(game_id, 1, program).1,
                },
            )
        }
    }
}

/// Validates a `CreateGame` call and yields the records the runtime must
/// create, fund, and write. Expects the accounts in the order game, payer,
/// system program, player, bid.
pub fn create_game(
    program_id: &Addr,
    accounts: &Vec<Account>,
    game_id: u64,
    initial_bid_amount: u64,
    now: u64,
) -> (r: Result<CreatedGame, ProgramFailure>)
    ensures
        match r {
            Ok(c) => spec_create_game(program_id@, accounts_v(accounts@), game_id,
            initial_bid_amount, now) == Ok::<CreatedGameV, ProgramFailure>(c@),
            Err(e) => spec_create_game(program_id@, accounts_v(accounts@), game_id,
            initial_bid_amount, now) == Err::<CreatedGameV, ProgramFailure>(e),
        },
{
    let ghost s = accounts_v(accounts@);
    if accounts.len() < 5 {
        return Err(ProgramFailure::NotEnoughAccountKeys);
    }
    if initial_bid_amount < crate::MIN_INITIAL_BID {
        return Err(ProgramFailure::Bidding(BiddingError::InsufficientInitialBid));
    }
    let payer = accounts[1].addr;
    proof {
        assert(s[1] == accounts@[1]@);
        assert(s[0] == accounts@[0]@);
        assert(s[3] == accounts@[3]@);
        assert(s[4] == accounts@[4]@);
    }
    let (game_pda, game_bump) = game_pda_seeds(game_id, program_id);
    if !accounts[0].addr.equals(&game_pda) {
        return Err(ProgramFailure::Bidding(BiddingError::InvalidGameAccount));
    }
    let (player_pda, player_bump) = player_pda_seeds(game_id, &payer, 1, program_id);
    if !accounts[3].addr.equals(&player_pda) {
        return Err(ProgramFailure::Bidding(BiddingError::InvalidPlayerAccount));
    }
    let (bid_pda, bid_bump) = bid_pda_seeds(game_id, 1, program_id);
    if !accounts[4].addr.equals(&bid_pda) {
        return Err(ProgramFailure::Bidding(BiddingError::InvalidBidAccount));
    }
    let game_state = GameState {
        game_id,
        initial_bid_amount,
        highest_bid: initial_bid_amount,
        last_bid_time: now,
        total_bids: 1,
        last_bidder: payer,
        prize_pool: initial_bid_amount,
        platform_fee_percentage: 10,
        game_ended: false,
    };
    let player_state = PlayerState {
        total_bid_amount: initial_bid_amount,
        safe: false,
        royalty_earned: 0,
        bid_count: 1,
    };
    let bid = Bid { bidder: payer, amount: initial_bid_amount, timestamp: now };
    Ok(CreatedGame { game_state, player_state, bid, game_bump, player_bump, bid_bump })
}

// ---------------------------------------------------------------------------
// Placing a bid. On the happy path the game record is updated in place and
// the two records to create are returned; on timeout, settlement runs
// instead and no bid record is created.
// ---------------------------------------------------------------------------

/// What a `PlaceBid` call came to: either a bid was accepted, with the new
/// records for the runtime to create, or the timeout had passed and the game
/// was settled instead.
#[derive(Debug, Clone, Copy)]
pub enum PlaceBidOutcome {
    BidPlaced {
        game_state: GameState,
        player_state: PlayerState,
        bid: Bid,
        player_bump: u8,
        bid_bump: u8,
    },
    GameSettled,
}

/// The mathematical image of a `PlaceBidOutcome`.
pub enum PlaceBidOutcomeV {
    BidPlaced {
        game_state: GameStateV,
        player_state: PlayerState,
        bid: BidV,
        player_bump: u8,
        bid_bump: u8,
    },
    GameSettled,
}

impl View for PlaceBidOutcome {
    type V = PlaceBidOutcomeV;

    open spec fn view(&self) -> PlaceBidOutcomeV {
        match self {
            PlaceBidOutcome::BidPlaced { game_state, player_state, bid, player_bump, bid_bump } => {
                PlaceBidOutcomeV::BidPlaced {
                    game_state: game_state@,
                    player_state: *player_state,
                    bid: bid@,
                    player_bump: *player_bump,
                    bid_bump: *bid_bump,
                }
            },
            PlaceBidOutcome::GameSettled => PlaceBidOutcomeV::GameSettled,
        }
    }
}

/// How one accepted bid rewrites the game record: the bidder leads, the
/// clock and counters advance, and the pot grows by the bid.
pub open spec fn spec_bid_step(g: GameStateV, bidder: Seq<u8>, amount: u64, now: u64) -> GameStateV {
    GameStateV {
        highest_bid: amount,
        last_bid_time: now,
        last_bidder: bidder,
        total_bids: (g.total_bids + 1) as u64,
        prize_pool: (g.prize_pool + amount) as u64,
        ..g
    }
}

/// What a `PlaceBid` call means, checked in order: the game record must be
/// well formed and not ended; past the timeout the call settles the game; a
/// live bid must at least double the high bid, declare the next sequence
/// number, and supply both re-derived record addresses; then the game record
/// is rewritten by `spec_bid_step` and the new records are handed back.
pub open spec fn spec_place_bid(
    program: Seq<u8>,
    s: Seq<AccountV>,
    bid_amount: u64,
    bid_count: u64,
    now: u64,
    rent_floor: u64,
) -> Result<(PlaceBidOutcomeV, Seq<AccountV>), ProgramFailure> {
    if s.len() < 6 {
        Err(ProgramFailure::NotEnoughAccountKeys)
    } else {
        match spec_deser_game(s[2].data) {
            Err(e) => Err(e),
            Ok(g) => {
                if g.game_ended {
                    Err(ProgramFailure::Bidding(BiddingError::GameEnded))
                } else if now < g.last_bid_time {
                    Err(ProgramFailure::ArithmeticOverflow)
                } else if now - g.last_bid_time > crate::TIMEOUT_SECONDS {
                    match spec_end_game(program, g.game_id, s, g, rent_floor) {
                        Err(e) => Err(e),
                        Ok((g2, s2)) => Ok((PlaceBidOutcomeV::GameSettled, s2)),
                    }
                } else if 2 * g.highest_bid > u64::MAX {
                    Err(ProgramFailure::ArithmeticOverflow)
                } else if bid_amount < 2 * g.highest_bid {
                    Err(ProgramFailure::Bidding(BiddingError::InsufficientBidAmount))
                } else if g.total_bids + 1 > u64::MAX {
                    Err(ProgramFailure::ArithmeticOverflow)
                } else if bid_count != g.total_bids + 1 {
                    Err(ProgramFailure::Bidding(BiddingError::BidCountMismatch))
                } else {
                    let new_count = (g.total_bids + 1) as u64;
                    let bidder = s[3].addr;
                    if s[5].addr != spec_player_pda(g.game_id, bidder, new_count, program).0 {
                        Err(ProgramFailure::Bidding(BiddingError::InvalidNewPlayerAccount))
                    } else if s[4].addr != spec_bid_pda(g.game_id, new_count, program).0 {
                        Err(ProgramFailure::Bidding(BiddingError::InvalidNewBidAccount))
                    } else if g.prize_pool + bid_amount > u64::MAX {
                        Err(ProgramFailure::ArithmeticOverflow)
                    } else {
                        let g2 = spec_bid_step(g, bidder, bid_amount, now);
                        let s2 = s.update(
                            2,
                            AccountV { data: spec_game_data_updated(s[2].data, g2), ..s[2] },
                        );
                        Ok(
                            (
                                PlaceBidOutcomeV::BidPlaced {
                                    game_state: g2,
                                    player_state: PlayerState {
                                        total_bid_amount: bid_amount,
                                        safe: false,
                                        royalty_earned: 0,
                                        bid_count: new_count,
                                    },
                                    bid: BidV { bidder, amount: bid_amount, timestamp: now },
                                    player_bump: spec_player_pda(
                                        g.game_id,
                                        bidder,
                                        new_count,
                                        program,
                                    ).1,
                                    bid_bump: spec_bid_pda(g.game_id, new_count, program).1,
                                },
                                s2,
                            ),
                        )
                    }
                }
            },
        }
    }
}

/// Validates and applies a `PlaceBid` call. Expects the accounts in the
/// order system program, platform, game, bidder, new bid, new player; on a
/// timeout the whole list feeds settlement.
pub fn place_bid(
    program_id: &Addr,
    accounts: &mut Vec<Account>,
    bid_amount: u64,
    bid_count: u64,
    now: u64,
    rent_floor: u64,
) -> (r: Result<PlaceBidOutcome, ProgramFailure>)
    ensures
        match spec_place_bid(
            program_id@,
            accounts_v(old(accounts)@),
            bid_amount,
            bid_count,
            now,
            rent_floor,
        ) {
            Ok((o, s2)) => {
                &&& r is Ok
                &&& r->Ok_0@ == o
                &&& accounts_v(final(accounts)@) == s2
                &&& final(accounts)@.len() == old(accounts)@.len()
            },
            Err(e) => r == Err::<PlaceBidOutcome, ProgramFailure>(e) && final(accounts)@ == old(
                accounts,
            )@,
        },
{
    let ghost s0 = accounts_v(accounts@);
    if accounts.len() < 6 {
        return Err(ProgramFailure::NotEnoughAccountKeys);
    }
    proof {
        assert(s0[2] == accounts@[2]@);
        assert(s0[3] == accounts@[3]@);
        assert(s0[4] == accounts@[4]@);
        assert(s0[5] == accounts@[5]@);
    }
    if accounts[2].data.len() != GAME_ACCOUNT_SIZE {
        return Err(ProgramFailure::InvalidAccountData);
    }
    let parsed = deserialize_game_state(&accounts[2].data);
    let mut game_state = match parsed {
        Ok(g) => g,
        Err(e) => {
            return Err(e);
        },
    };
    if game_state.game_ended {
        return Err(ProgramFailure::Bidding(BiddingError::GameEnded));
    }
    let elapsed = match now.checked_sub(game_state.last_bid_time) {
        Some(x) => x,
        None => {
            return Err(ProgramFailure::ArithmeticOverflow);
        },
    };
    if elapsed > crate::TIMEOUT_SECONDS {
        let settled = end_game(program_id, game_state.game_id, accounts, &mut game_state, rent_floor);
        return match settled {
            Ok(_) => Ok(PlaceBidOutcome::GameSettled),
            Err(e) => Err(e),
        };
    }
    let doubled = match game_state.highest_bid.checked_mul(2) {
        Some(x) => x,
        None => {
            return Err(ProgramFailure::ArithmeticOverflow);
        },
    };
    if bid_amount < doubled {
        return Err(ProgramFailure::Bidding(BiddingError::InsufficientBidAmount));
    }
    let new_bid_count = match game_state.total_bids.checked_add(1) {
        Some(x) => x,
        None => {
            return Err(ProgramFailure::ArithmeticOverflow);
        },
    };
    if bid_count != new_bid_count {
        return Err(ProgramFailure::Bidding(BiddingError::BidCountMismatch));
    }
    let bidder = accounts[3].addr;
    let (new_player_pda, new_player_bump) = player_pda_seeds(
        game_state.game_id,
        &bidder,
        new_bid_count,
        program_id,
    );
    if !accounts[5].addr.equals(&new_player_pda) {
        return Err(ProgramFailure::Bidding(BiddingError::InvalidNewPlayerAccount));
    }
    let (new_bid_pda, new_bid_bump) = bid_pda_seeds(game_state.game_id, new_bid_count, program_id);
    if !accounts[4].addr.equals(&new_bid_pda) {
        return Err(ProgramFailure::Bidding(BiddingError::InvalidNewBidAccount));
    }
    let new_pool = match game_state.prize_pool.checked_add(bid_amount) {
        Some(x) => x,
        None => {
            return Err(ProgramFailure::ArithmeticOverflow);
        },
    };
    let ghost g_before = game_state@;
    game_state.highest_bid = bid_amount;
    game_state.last_bid_time = now;
    game_state.last_bidder = bidder;
    game_state.total_bids = new_bid_count;
    game_state.prize_pool = new_pool;
    proof {
        assert(game_state@ == spec_bid_step(g_before, bidder@, bid_amount, now));
    }
    let ghost before = accounts@;
    let mut ga = account_out(accounts, 2);
    let nd = update_game_data(&ga.data, &game_state);
    ga.data = nd;
    account_back(accounts, 2, ga);
    proof {
        lemma_remove_insert(before, 2, ga);
        lemma_accounts_v_update(before, 2, ga);
        assert(accounts@ =~= before.update(2, ga));
        let expected = spec_place_bid(program_id@, s0, bid_amount, bid_count, now, rent_floor);
        assert(accounts_v(accounts@) =~= expected->Ok_0.1);
    }
    let new_player_state = PlayerState {
        total_bid_amount: bid_amount,
        safe: false,
        royalty_earned: 0,
        bid_count: new_bid_count,
    };
    let new_bid = Bid { bidder, amount: bid_amount, timestamp: now };
    Ok(
        PlaceBidOutcome::BidPlaced {
            game_state,
            player_state: new_player_state,
            bid: new_bid,
            player_bump: new_player_bump,
            bid_bump: new_bid_bump,
        },
    )
}

} // verus!
