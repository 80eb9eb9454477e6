use vstd::prelude::*;
use crate::addr::Addr;
use crate::error::{BiddingError, ProgramFailure};
use crate::instructions::{
    BiddingInstruction, CreatedGame, CreatedGameV, PlaceBidOutcome, PlaceBidOutcomeV,
    spec_deser_instruction, deserialize_instruction, spec_create_game, create_game, spec_place_bid,
    place_bid,
};
use crate::state::{Account, AccountV, accounts_v};

verus! {

/// What one dispatched call did: the records a `CreateGame` asks the runtime
/// to create, or a `PlaceBid`'s outcome.
#[derive(Debug, Clone, Copy)]
pub enum ProgramEffect {
    Created(CreatedGame),
    Bid(PlaceBidOutcome),
}

/// The mathematical image of a `ProgramEffect`.
pub enum ProgramEffectV {
    Created(CreatedGameV),
    Bid(PlaceBidOutcomeV),
}

impl View for ProgramEffect {
    type V = ProgramEffectV;

    open spec fn view(&self) -> ProgramEffectV {
        match self {
            ProgramEffect::Created(c) => ProgramEffectV::Created(c@),
            ProgramEffect::Bid(b) => ProgramEffectV::Bid(b@),
        }
    }
}

/// The meaning of one external call: decode the instruction, dispatch it,
/// and perform it against the supplied accounts.
pub open spec fn spec_process_instruction(
    program: Seq<u8>,
    s: Seq<AccountV>,
    data: Seq<u8>,
    now: u64,
    rent_floor: u64,
) -> Result<(ProgramEffectV, Seq<AccountV>), ProgramFailure> {
    match spec_deser_instruction(data) {
        None => Err(ProgramFailure::Bidding(BiddingError::InvalidInstruction)),
        Some(BiddingInstruction::CreateGame { game_id, initial_bid_amount }) => match spec_create_game(
            program,
            s,
            game_id,
            initial_bid_amount,
            now,
        ) {
            Err(e) => Err(e),
            Ok(c) => Ok((ProgramEffectV::Created(c), s)),
        },
        Some(BiddingInstruction::PlaceBid { bid_amount, bid_count }) => match spec_place_bid(
            program,
            s,
            bid_amount,
            bid_count,
            now,
            rent_floor,
        ) {
            Err(e) => Err(e),
            Ok((o, s2)) => Ok((ProgramEffectV::Bid(o), s2)),
        },
    }
}

/// Decodes and dispatches one call. The clock reading and the game record's
/// rent floor come from the caller, who has the runtime at hand.
pub fn process_instruction(
    program_id: &Addr,
    accounts: &mut Vec<Account>,
    instruction_data: &Vec<u8>,
    now: u64,
    rent_floor: u64,
) -> (r: Result<ProgramEffect, ProgramFailure>)
    ensures
        match spec_process_instruction(
            program_id@,
            accounts_v(old(accounts)@),
            instruction_data@,
            now,
            rent_floor,
        ) {
            Ok((eff, s2)) => {
                &&& r is Ok
                &&& r->Ok_0@ == eff
                &&& accounts_v(final(accounts)@) == s2
            },
            Err(e) => r == Err::<ProgramEffect, ProgramFailure>(e) && final(accounts)@ == old(
                accounts,
            )@,
        },
{
    let instruction = match deserialize_instruction(instruction_data) {
        Some(i) => i,
        None => {
            return Err(ProgramFailure::Bidding(BiddingError::InvalidInstruction));
        },
    };
    match instruction {
        BiddingInstruction::CreateGame { game_id, initial_bid_amount } => {
            let made = create_game(program_id, accounts, game_id, initial_bid_amount, now);
            match made {
                Ok(c) => Ok(ProgramEffect::Created(c)),
                Err(e) => Err(e),
            }
        },
        BiddingInstruction::PlaceBid { bid_amount, bid_count } => {
            let placed = place_bid(program_id, accounts, bid_amount, bid_count, now, rent_floor);
            match placed {
                Ok(o) => Ok(ProgramEffect::Bid(o)),
                Err(e) => Err(e),
            }
        },
    }
}

} // verus!
