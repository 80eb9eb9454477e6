use vstd::prelude::*;
use crate::codec::{
    spec_deser_game, spec_game_data_updated, spec_player_data_updated, spec_ser_player,
    lemma_game_record_roundtrip,
};
use crate::error::{BiddingError, ProgramFailure};
use crate::instructions::{spec_bid_step, spec_place_bid, spec_create_game, PlaceBidOutcomeV};
use crate::royalty::{
    spec_share, spec_sum_shares, spec_weight_sum, spec_sum_amounts, lemma_share_le_pool,
    lemma_royalty_conservation,
};
use crate::settle::{
    spec_end_game, spec_settle_small, spec_settle_large, spec_cal_royalties, spec_fetch_history,
    spec_find_account, spec_transfer, lemma_transfer_shape,
    lemma_find_account_props, lemma_apply_royalties_shape,
};
use crate::state::{AccountV, BidV, GameStateV, PlayerState, GAME_ACCOUNT_SIZE};

verus! {

// ---------------------------------------------------------------------------
// The laws of the protocol, each proved from the specifications the
// executable functions are verified against.
// ---------------------------------------------------------------------------

/// One accepted bid, as a ghost event: who bid, how much, and when.
pub open spec fn spec_sum_event_amounts(events: Seq<(Seq<u8>, u64, u64)>) -> int
    decreases events.len(),
{
    if events.len() == 0 {
        0
    } else {
        events[0].1 + spec_sum_event_amounts(events.skip(1))
    }
}

/// A game record carried through any sequence of accepted bids.
pub open spec fn spec_fold_bids(g: GameStateV, events: Seq<(Seq<u8>, u64, u64)>) -> GameStateV
    decreases events.len(),
{
    if events.len() == 0 {
        g
    } else {
        spec_fold_bids(spec_bid_step(g, events[0].0, events[0].1, events[0].2), events.skip(1))
    }
}

proof fn lemma_sum_event_amounts_nonneg(events: Seq<(Seq<u8>, u64, u64)>)
    ensures
        0 <= spec_sum_event_amounts(events),
    decreases events.len(),
{
    if events.len() > 0 {
        lemma_sum_event_amounts_nonneg(events.skip(1));
    }
}

/// Monotonic pot: after any sequence of accepted bids, the pot holds the
/// starting pot plus exactly the sum of the accepted amounts — no rounding
/// before settlement — and the bid counter advances once per bid.
pub proof fn lemma_monotonic_pot(g: GameStateV, events: Seq<(Seq<u8>, u64, u64)>)
    requires
        g.prize_pool + spec_sum_event_amounts(events) <= u64::MAX,
        g.total_bids + events.len() <= u64::MAX,
    ensures
        spec_fold_bids(g, events).prize_pool == g.prize_pool + spec_sum_event_amounts(events),
        spec_fold_bids(g, events).total_bids == g.total_bids + events.len(),
    decreases events.len(),
{
    if events.len() > 0 {
        lemma_sum_event_amounts_nonneg(events.skip(1));
        let g1 = spec_bid_step(g, events[0].0, events[0].1, events[0].2);
        lemma_monotonic_pot(g1, events.skip(1));
    }
}

/// Creation establishes the game record's well-formedness: the counter
/// starts at one and the fee share is fixed.
pub proof fn lemma_create_game_wf(
    program: Seq<u8>,
    s: Seq<AccountV>,
    game_id: u64,
    initial_bid_amount: u64,
    now: u64,
)
    requires
        spec_create_game(program, s, game_id, initial_bid_amount, now) is Ok,
    ensures
        spec_create_game(program, s, game_id, initial_bid_amount, now)->Ok_0.game_state.wf(),
{
}

/// Every accepted bid preserves the game record's well-formedness.
pub proof fn lemma_bid_step_preserves_wf(g: GameStateV, bidder: Seq<u8>, amount: u64, now: u64)
    requires
        g.wf(),
        g.total_bids + 1 <= u64::MAX,
    ensures
        spec_bid_step(g, bidder, amount, now).wf(),
{
}

/// Strict doubling: a live bid under twice the current high bid is rejected
/// with `InsufficientBidAmount`. (The executable contract of `place_bid`
/// adds the frame: on any rejection the supplied accounts are unchanged, so
/// no game, bid, or player record moves.)
pub proof fn lemma_strict_doubling(
    program: Seq<u8>,
    s: Seq<AccountV>,
    bid_amount: u64,
    bid_count: u64,
    now: u64,
    rent_floor: u64,
)
    requires
        s.len() >= 6,
        spec_deser_game(s[2].data) is Ok,
        ({
            let g = spec_deser_game(s[2].data)->Ok_0;
            &&& !g.game_ended
            &&& g.last_bid_time <= now
            &&& now - g.last_bid_time <= crate::TIMEOUT_SECONDS
            &&& 2 * g.highest_bid <= u64::MAX
            &&& bid_amount < 2 * g.highest_bid
        }),
    ensures
        spec_place_bid(program, s, bid_amount, bid_count, now, rent_floor) == Err::<
            (PlaceBidOutcomeV, Seq<AccountV>),
            ProgramFailure,
        >(ProgramFailure::Bidding(BiddingError::InsufficientBidAmount)),
{
}

/// Sequence integrity: of two bids declaring the same sequence number, the
/// one that lands second is rejected with `BidCountMismatch`, however valid
/// it is otherwise.
pub proof fn lemma_sequence_integrity(
    program: Seq<u8>,
    s: Seq<AccountV>,
    first_amount: u64,
    second_amount: u64,
    declared_count: u64,
    first_now: u64,
    second_now: u64,
    rent_floor: u64,
)
    requires
        spec_place_bid(program, s, first_amount, declared_count, first_now, rent_floor) is Ok,
        spec_place_bid(program, s, first_amount, declared_count, first_now, rent_floor)->Ok_0.0
            is BidPlaced,
        s.len() >= 6,
        s[3].addr.len() == 32,
        declared_count < u64::MAX,
        first_now <= second_now,
        second_now - first_now <= crate::TIMEOUT_SECONDS,
        2 * first_amount <= u64::MAX,
        second_amount >= 2 * first_amount,
    ensures
        ({
            let s2 = spec_place_bid(
                program,
                s,
                first_amount,
                declared_count,
                first_now,
                rent_floor,
            )->Ok_0.1;
            spec_place_bid(program, s2, second_amount, declared_count, second_now, rent_floor)
                == Err::<(PlaceBidOutcomeV, Seq<AccountV>), ProgramFailure>(
                ProgramFailure::Bidding(BiddingError::BidCountMismatch),
            )
        }),
{
    let g = spec_deser_game(s[2].data)->Ok_0;
    let g2 = spec_bid_step(g, s[3].addr, first_amount, first_now);
    let s2 = spec_place_bid(program, s, first_amount, declared_count, first_now, rent_floor)
        ->Ok_0.1;
    assert(s[2].data.len() == GAME_ACCOUNT_SIZE);
    assert(s2[2].data == spec_game_data_updated(s[2].data, g2));
    assert(s[2].data.skip(89).len() == 7);
    lemma_game_record_roundtrip(g2, s[2].data.skip(89));
    assert(spec_deser_game(s2[2].data) == Ok::<GameStateV, ProgramFailure>(g2));
    assert(g2.total_bids == declared_count);
}

/// Timeout triggers settlement, not a bid: past the inactivity window a
/// `PlaceBid` either settles the game — never producing a bid record — or
/// fails with the settlement's own error, leaving everything unchanged.
pub proof fn lemma_timeout_settles(
    program: Seq<u8>,
    s: Seq<AccountV>,
    bid_amount: u64,
    bid_count: u64,
    now: u64,
    rent_floor: u64,
)
    requires
        s.len() >= 6,
        spec_deser_game(s[2].data) is Ok,
        ({
            let g = spec_deser_game(s[2].data)->Ok_0;
            &&& !g.game_ended
            &&& g.last_bid_time <= now
            &&& now - g.last_bid_time > crate::TIMEOUT_SECONDS
        }),
    ensures
        ({
            let g = spec_deser_game(s[2].data)->Ok_0;
            let r = spec_place_bid(program, s, bid_amount, bid_count, now, rent_floor);
            let settled = spec_end_game(program, g.game_id, s, g, rent_floor);
            &&& r is Ok ==> r->Ok_0.0 is GameSettled
            &&& r is Ok ==> settled is Ok && r->Ok_0.1 == settled->Ok_0.1
                && settled->Ok_0.0.game_ended
            &&& r is Err ==> settled is Err && r->Err_0 == settled->Err_0
        }),
{
    let g = spec_deser_game(s[2].data)->Ok_0;
    let settled = spec_end_game(program, g.game_id, s, g, rent_floor);
    if settled is Ok {
        lemma_end_game_ends(program, g.game_id, s, g, rent_floor);
    }
}

/// A settlement that lands always ends the game.
pub proof fn lemma_end_game_ends(
    program: Seq<u8>,
    game_id: u64,
    s: Seq<AccountV>,
    g: GameStateV,
    rent_floor: u64,
)
    requires
        spec_end_game(program, game_id, s, g, rent_floor) is Ok,
    ensures
        spec_end_game(program, game_id, s, g, rent_floor)->Ok_0.0.game_ended,
        spec_end_game(program, game_id, s, g, rent_floor)->Ok_0.0 == (GameStateV {
            game_ended: true,
            ..g
        }),
{
}

/// Each refunded amount covers the original bid: a royalty share is never
/// negative, so bid plus share is at least the bid.
pub proof fn lemma_refund_covers_bid(w: int, a: int, pool: int, tw: int, ta: int)
    requires
        0 <= w <= tw,
        0 <= a <= ta,
        0 <= pool,
        0 < tw * ta,
    ensures
        a + spec_share(w, a, pool, tw, ta) >= a,
{
    lemma_share_le_pool(w, a, pool, tw, ta);
}

/// Idempotent settlement: once a settlement has landed, any further
/// `PlaceBid` against the settled accounts fails with `GameEnded` and
/// changes nothing.
pub proof fn lemma_settlement_idempotent(
    program: Seq<u8>,
    game_id: u64,
    s: Seq<AccountV>,
    g: GameStateV,
    rent_floor: u64,
    bid_amount: u64,
    bid_count: u64,
    now: u64,
    rent_floor2: u64,
)
    requires
        s.len() >= 6,
        s[2].data.len() == GAME_ACCOUNT_SIZE,
        g.last_bidder.len() == 32,
        spec_end_game(program, game_id, s, g, rent_floor) is Ok,
    ensures
        ({
            let s2 = spec_end_game(program, game_id, s, g, rent_floor)->Ok_0.1;
            spec_place_bid(program, s2, bid_amount, bid_count, now, rent_floor2) == Err::<
                (PlaceBidOutcomeV, Seq<AccountV>),
                ProgramFailure,
            >(ProgramFailure::Bidding(BiddingError::GameEnded))
        }),
{
    lemma_end_game_game_record(program, game_id, s, g, rent_floor);
    lemma_end_game_shape(program, game_id, s, g, rent_floor);
}

/// The game record a settlement leaves behind reads back as the ended game.
pub proof fn lemma_end_game_game_record(
    program: Seq<u8>,
    game_id: u64,
    s: Seq<AccountV>,
    g: GameStateV,
    rent_floor: u64,
)
    requires
        s.len() >= 3,
        s[2].data.len() == GAME_ACCOUNT_SIZE,
        g.last_bidder.len() == 32,
        spec_end_game(program, game_id, s, g, rent_floor) is Ok,
    ensures
        ({
            let (g2, s2) = spec_end_game(program, game_id, s, g, rent_floor)->Ok_0;
            &&& 2 < s2.len()
            &&& spec_deser_game(s2[2].data) == Ok::<GameStateV, ProgramFailure>(g2)
        }),
{
    let history = spec_fetch_history(program, g.game_id, g.total_bids, s)->Ok_0;
    let g2 = GameStateV { game_ended: true, ..g };
    vstd::bytes::lemma_auto_spec_u64_to_from_le_bytes();
    if history.len() < 5 {
        let fee = ((g.prize_pool * 10) / 100) as u64;
        let remaining = (g.prize_pool - fee) as u64;
        let widx = spec_find_account(s, history.last().bidder);
        let s1 = spec_transfer(s, 2, 1, fee)->Ok_0;
        lemma_find_account_props(s, history.last().bidder);
        lemma_transfer_shape(s, 2, 1, fee);
        let s2 = spec_transfer(s1, 2, widx, remaining)->Ok_0;
        lemma_transfer_shape(s1, 2, widx, remaining);
        assert(s2[2].data == s[2].data);
        assert(s2[2].data.skip(89).len() == 7);
        lemma_game_record_roundtrip(g2, s2[2].data.skip(89));
    } else {
        let last5 = history.skip(history.len() - 5);
        let fee = ((spec_sum_amounts(last5) * g.platform_fee_percentage) / 100) as u64;
        let royalty_amount = history[history.len() - 4].amount;
        let s1 = spec_cal_royalties(history, royalty_amount, program, game_id, 2, s)->Ok_0;
        let elig = history.take(history.len() - 5);
        let n = elig.len() as int;
        lemma_apply_royalties_shape(
            s,
            elig,
            n,
            royalty_amount,
            spec_weight_sum(n, n) as u64,
            spec_sum_amounts(elig) as u64,
            2,
            game_id,
            program,
        );
        assert(s1[2].data.len() == GAME_ACCOUNT_SIZE);
        let widx = spec_find_account(s1, history.last().bidder);
        lemma_find_account_props(s1, history.last().bidder);
        let s2 = spec_transfer(s1, 2, 1, fee)->Ok_0;
        lemma_transfer_shape(s1, 2, 1, fee);
        let amount = (s2[2].balance - rent_floor) as u64;
        let s3 = spec_transfer(s2, 2, widx, amount)->Ok_0;
        lemma_transfer_shape(s2, 2, widx, amount);
        let p = crate::codec::spec_deser_player(s3[widx].data)->Ok_0;
        let p2 = PlayerState {
            safe: true,
            royalty_earned: (p.royalty_earned + amount) as u64,
            ..p
        };
        let s4 = s3.update(
            widx,
            AccountV { data: spec_player_data_updated(s3[widx].data, p2), ..s3[widx] },
        );
        assert(spec_ser_player(p2).len() == 25);
        assert(s4[2].data.len() == GAME_ACCOUNT_SIZE);
        assert(s4[2].data.skip(89).len() == 7);
        lemma_game_record_roundtrip(g2, s4[2].data.skip(89));
    }
}

/// A settlement never adds or removes accounts.
pub proof fn lemma_end_game_shape(
    program: Seq<u8>,
    game_id: u64,
    s: Seq<AccountV>,
    g: GameStateV,
    rent_floor: u64,
)
    requires
        spec_end_game(program, game_id, s, g, rent_floor) is Ok,
    ensures
        spec_end_game(program, game_id, s, g, rent_floor)->Ok_0.1.len() == s.len(),
{
    let history = spec_fetch_history(program, g.game_id, g.total_bids, s)->Ok_0;
    if history.len() < 5 {
        let fee = ((g.prize_pool * 10) / 100) as u64;
        let remaining = (g.prize_pool - fee) as u64;
        let widx = spec_find_account(s, history.last().bidder);
        lemma_find_account_props(s, history.last().bidder);
        let s1 = spec_transfer(s, 2, 1, fee)->Ok_0;
        lemma_transfer_shape(s, 2, 1, fee);
        lemma_transfer_shape(s1, 2, widx, remaining);
    } else {
        let last5 = history.skip(history.len() - 5);
        let fee = ((spec_sum_amounts(last5) * g.platform_fee_percentage) / 100) as u64;
        let royalty_amount = history[history.len() - 4].amount;
        let s1 = spec_cal_royalties(history, royalty_amount, program, game_id, 2, s)->Ok_0;
        let elig = history.take(history.len() - 5);
        let n = elig.len() as int;
        lemma_apply_royalties_shape(
            s,
            elig,
            n,
            royalty_amount,
            spec_weight_sum(n, n) as u64,
            spec_sum_amounts(elig) as u64,
            2,
            game_id,
            program,
        );
        let widx = spec_find_account(s1, history.last().bidder);
        lemma_find_account_props(s1, history.last().bidder);
        let s2 = spec_transfer(s1, 2, 1, fee)->Ok_0;
        lemma_transfer_shape(s1, 2, 1, fee);
        let amount = (s2[2].balance - rent_floor) as u64;
        lemma_transfer_shape(s2, 2, widx, amount);
    }
}

/// Sum of every balance in an account list.
pub open spec fn spec_sum_balances(s: Seq<AccountV>) -> int
    decreases s.len(),
{
    if s.len() == 0 {
        0
    } else {
        spec_sum_balances(s.drop_last()) + s.last().balance
    }
}

proof fn lemma_sum_balances_update(s: Seq<AccountV>, i: int, a: AccountV)
    requires
        0 <= i < s.len(),
    ensures
        spec_sum_balances(s.update(i, a)) == spec_sum_balances(s) - s[i].balance + a.balance,
    decreases s.len(),
{
    if i == s.len() - 1 {
        assert(s.update(i, a).drop_last() =~= s.drop_last());
        assert(s.update(i, a).last() == a);
    } else {
        assert(s.update(i, a).drop_last() =~= s.drop_last().update(i, a));
        assert(s.update(i, a).last() == s.last());
        lemma_sum_balances_update(s.drop_last(), i, a);
    }
}

/// A transfer moves value; it never mints or burns it.
pub proof fn lemma_transfer_conserves(s: Seq<AccountV>, from: int, to: int, amount: u64)
    requires
        0 <= from < s.len(),
        0 <= to < s.len(),
        spec_transfer(s, from, to, amount) is Ok,
    ensures
        spec_sum_balances(spec_transfer(s, from, to, amount)->Ok_0) == spec_sum_balances(s),
{
    if from != to {
        let a1 = AccountV { balance: (s[from].balance - amount) as u64, ..s[from] };
        let s1 = s.update(from, a1);
        let a2 = AccountV { balance: (s[to].balance + amount) as u64, ..s[to] };
        lemma_sum_balances_update(s, from, a1);
        lemma_sum_balances_update(s1, to, a2);
    }
}

proof fn lemma_royalty_step_conserves(
    s: Seq<AccountV>,
    b: BidV,
    i: int,
    n: int,
    pool: u64,
    tw: u64,
    ta: u64,
    game_idx: int,
    game_id: u64,
    program: Seq<u8>,
)
    requires
        0 <= game_idx < s.len(),
        crate::settle::spec_royalty_step(s, b, i, n, pool, tw, ta, game_idx, game_id, program)
            is Ok,
    ensures
        spec_sum_balances(
            crate::settle::spec_royalty_step(s, b, i, n, pool, tw, ta, game_idx, game_id, program)
                ->Ok_0,
        ) == spec_sum_balances(s),
{
    let w = n - i;
    let share = spec_share(w, b.amount as int, pool as int, tw as int, ta as int);
    let bidder_idx = spec_find_account(s, b.bidder);
    lemma_find_account_props(s, b.bidder);
    let s1 = spec_transfer(s, game_idx, bidder_idx, (b.amount + share) as u64)->Ok_0;
    lemma_transfer_conserves(s, game_idx, bidder_idx, (b.amount + share) as u64);
    lemma_transfer_shape(s, game_idx, bidder_idx, (b.amount + share) as u64);
    let paddr = crate::addr::spec_player_pda(game_id, b.bidder, (i + 1) as u64, program).0;
    let pidx = spec_find_account(s1, paddr);
    lemma_find_account_props(s1, paddr);
    let p = crate::codec::spec_deser_player(s1[pidx].data)->Ok_0;
    let p2 = PlayerState { safe: true, royalty_earned: (p.royalty_earned + share) as u64, ..p };
    let a2 = AccountV { data: spec_player_data_updated(s1[pidx].data, p2), ..s1[pidx] };
    lemma_sum_balances_update(s1, pidx, a2);
}

proof fn lemma_apply_royalties_conserves(
    s: Seq<AccountV>,
    elig: Seq<BidV>,
    i: int,
    pool: u64,
    tw: u64,
    ta: u64,
    game_idx: int,
    game_id: u64,
    program: Seq<u8>,
)
    requires
        0 <= game_idx < s.len(),
        crate::settle::spec_apply_royalties(s, elig, i, pool, tw, ta, game_idx, game_id, program)
            is Ok,
    ensures
        spec_sum_balances(
            crate::settle::spec_apply_royalties(s, elig, i, pool, tw, ta, game_idx, game_id, program)
                ->Ok_0,
        ) == spec_sum_balances(s),
    decreases i,
{
    if i > 0 {
        lemma_apply_royalties_conserves(s, elig, i - 1, pool, tw, ta, game_idx, game_id, program);
        lemma_apply_royalties_shape(s, elig, i - 1, pool, tw, ta, game_idx, game_id, program);
        let s1 = crate::settle::spec_apply_royalties(
            s,
            elig,
            i - 1,
            pool,
            tw,
            ta,
            game_idx,
            game_id,
            program,
        )->Ok_0;
        lemma_royalty_step_conserves(
            s1,
            elig[i - 1],
            i - 1,
            elig.len() as int,
            pool,
            tw,
            ta,
            game_idx,
            game_id,
            program,
        );
    }
}

/// Value conservation: a settlement that lands moves every lamport of the
/// escrow it touches to the platform, an eligible bidder, or the winner —
/// the total held by the supplied accounts is unchanged.
pub proof fn lemma_settlement_conserves_value(
    program: Seq<u8>,
    game_id: u64,
    s: Seq<AccountV>,
    g: GameStateV,
    rent_floor: u64,
)
    requires
        spec_end_game(program, game_id, s, g, rent_floor) is Ok,
    ensures
        spec_sum_balances(spec_end_game(program, game_id, s, g, rent_floor)->Ok_0.1)
            == spec_sum_balances(s),
{
    let history = spec_fetch_history(program, g.game_id, g.total_bids, s)->Ok_0;
    let g2 = GameStateV { game_ended: true, ..g };
    if history.len() < 5 {
        let fee = ((g.prize_pool * 10) / 100) as u64;
        let remaining = (g.prize_pool - fee) as u64;
        let widx = spec_find_account(s, history.last().bidder);
        lemma_find_account_props(s, history.last().bidder);
        let s1 = spec_transfer(s, 2, 1, fee)->Ok_0;
        lemma_transfer_conserves(s, 2, 1, fee);
        lemma_transfer_shape(s, 2, 1, fee);
        let s2 = spec_transfer(s1, 2, widx, remaining)->Ok_0;
        lemma_transfer_conserves(s1, 2, widx, remaining);
        lemma_transfer_shape(s1, 2, widx, remaining);
        let a = AccountV { data: spec_game_data_updated(s2[2].data, g2), ..s2[2] };
        lemma_sum_balances_update(s2, 2, a);
    } else {
        let last5 = history.skip(history.len() - 5);
        let fee = ((spec_sum_amounts(last5) * g.platform_fee_percentage) / 100) as u64;
        let royalty_amount = history[history.len() - 4].amount;
        let s1 = spec_cal_royalties(history, royalty_amount, program, game_id, 2, s)->Ok_0;
        let elig = history.take(history.len() - 5);
        let n = elig.len() as int;
        lemma_apply_royalties_conserves(
            s,
            elig,
            n,
            royalty_amount,
            spec_weight_sum(n, n) as u64,
            spec_sum_amounts(elig) as u64,
            2,
            game_id,
            program,
        );
        lemma_apply_royalties_shape(
            s,
            elig,
            n,
            royalty_amount,
            spec_weight_sum(n, n) as u64,
            spec_sum_amounts(elig) as u64,
            2,
            game_id,
            program,
        );
        let widx = spec_find_account(s1, history.last().bidder);
        lemma_find_account_props(s1, history.last().bidder);
        let s2 = spec_transfer(s1, 2, 1, fee)->Ok_0;
        lemma_transfer_conserves(s1, 2, 1, fee);
        lemma_transfer_shape(s1, 2, 1, fee);
        let amount = (s2[2].balance - rent_floor) as u64;
        let s3 = spec_transfer(s2, 2, widx, amount)->Ok_0;
        lemma_transfer_conserves(s2, 2, widx, amount);
        lemma_transfer_shape(s2, 2, widx, amount);
        let p = crate::codec::spec_deser_player(s3[widx].data)->Ok_0;
        let p2 = PlayerState {
            safe: true,
            royalty_earned: (p.royalty_earned + amount) as u64,
            ..p
        };
        let s4 = s3.update(
            widx,
            AccountV { data: spec_player_data_updated(s3[widx].data, p2), ..s3[widx] },
        );
        lemma_sum_balances_update(
            s3,
            widx,
            AccountV { data: spec_player_data_updated(s3[widx].data, p2), ..s3[widx] },
        );
        let a = AccountV { data: spec_game_data_updated(s4[2].data, g2), ..s4[2] };
        lemma_sum_balances_update(s4, 2, a);
    }
}

/// Royalty conservation, restated at the settlement's own terms: with five
/// or more bids, the truncated shares handed to the eligible bidders sum to
/// at most the royalty pool. Proved in `lemma_royalty_conservation`; this
/// form fixes the pool, weights, and amounts the settlement actually uses.
pub proof fn lemma_settlement_royalty_bound(history: Seq<BidV>, royalty_amount: u64)
    requires
        history.len() >= 5,
        ({
            let elig = history.take(history.len() - 5);
            let n = elig.len() as int;
            spec_weight_sum(n, n) * spec_sum_amounts(elig) > 0
        }),
    ensures
        ({
            let elig = history.take(history.len() - 5);
            let n = elig.len() as int;
            0 <= spec_sum_shares(
                elig,
                royalty_amount as int,
                spec_weight_sum(n, n),
                spec_sum_amounts(elig),
                n,
            ) <= royalty_amount
        }),
{
    let elig = history.take(history.len() - 5);
    let n = elig.len() as int;
    lemma_royalty_conservation(
        elig,
        royalty_amount as int,
        spec_weight_sum(n, n),
        spec_sum_amounts(elig),
    );
}

} // verus!
