use vstd::prelude::*;
use crate::addr::{Addr, spec_bid_pda, spec_player_pda, bid_pda_seeds, player_pda_seeds};
use crate::codec::{
    spec_deser_bid, spec_deser_player, spec_player_data_updated, spec_game_data_updated,
    deserialize_bid, deserialize_player_state, update_player_data, update_game_data,
};
use crate::error::{BiddingError, ProgramFailure};
use crate::royalty::{
    spec_sum_amounts, spec_weight_sum, spec_share, lemma_sum_amounts_nonneg,
    lemma_sum_amounts_take_le, lemma_amount_le_sum, lemma_weight_sum_nonneg, lemma_weight_sum_mono,
    lemma_weight_le_sum, lemma_share_le_pool,
};
use crate::state::{
    Account, AccountV, Bid, BidV, GameState, GameStateV, PlayerState, accounts_v, bids_v,
    GAME_ACCOUNT_SIZE, GAME_RECORD_BYTES, PLAYER_ACCOUNT_SIZE,
};

verus! {

// ---------------------------------------------------------------------------
// Account lookup: the first account bearing an address, as the runtime's
// linear scan of the supplied account list finds it.
// ---------------------------------------------------------------------------

/// Index of the first account whose address is `a`, or -1.
pub open spec fn spec_find_account(s: Seq<AccountV>, a: Seq<u8>) -> int
    decreases s.len(),
{
    if s.len() == 0 {
        -1
    } else if s[0].addr == a {
        0
    } else {
        let r = spec_find_account(s.skip(1), a);
        if r == -1 {
            -1
        } else {
            r + 1
        }
    }
}

pub proof fn lemma_find_account_none(s: Seq<AccountV>, a: Seq<u8>)
    requires
        forall|j: int| 0 <= j < s.len() ==> s[j].addr != a,
    ensures
        spec_find_account(s, a) == -1,
    decreases s.len(),
{
    if s.len() > 0 {
        assert(forall|j: int| 0 <= j < s.skip(1).len() ==> s.skip(1)[j] == s[j + 1]);
        lemma_find_account_none(s.skip(1), a);
    }
}

pub proof fn lemma_find_account_at(s: Seq<AccountV>, a: Seq<u8>, i: int)
    requires
        0 <= i < s.len(),
        s[i].addr == a,
        forall|j: int| 0 <= j < i ==> s[j].addr != a,
    ensures
        spec_find_account(s, a) == i,
    decreases s.len(),
{
    if i > 0 {
        assert(forall|j: int| 0 <= j < s.skip(1).len() ==> s.skip(1)[j] == s[j + 1]);
        lemma_find_account_at(s.skip(1), a, i - 1);
    }
}

/// What a found index means.
pub proof fn lemma_find_account_props(s: Seq<AccountV>, a: Seq<u8>)
    ensures
        spec_find_account(s, a) != -1 ==> {
            let i = spec_find_account(s, a);
            &&& 0 <= i < s.len()
            &&& s[i].addr == a
        },
    decreases s.len(),
{
    if s.len() > 0 && s[0].addr != a {
        lemma_find_account_props(s.skip(1), a);
    }
}

/// Linear scan for the account at an address; fails with `AccountNotFound`
/// exactly when no supplied account bears it.
pub fn find_account(bidder_pubkey: &Addr, accounts: &Vec<Account>) -> (r: Result<
    usize,
    BiddingError,
>)
    ensures
        match r {
            Ok(i) => i < accounts@.len() && spec_find_account(accounts_v(accounts@), bidder_pubkey@)
                == i,
            Err(e) => {
                &&& e == BiddingError::AccountNotFound
                &&& spec_find_account(accounts_v(accounts@), bidder_pubkey@) == -1
            },
        },
{
    let ghost s = accounts_v(accounts@);
    let n = accounts.len();
    let mut i: usize = 0;
    while i < n
        invariant
            0 <= i <= n == accounts@.len(),
            s == accounts_v(accounts@),
            forall|j: int| 0 <= j < i ==> s[j].addr != bidder_pubkey@,
        decreases n - i,
    {
        if accounts[i].addr.equals(bidder_pubkey) {
            proof {
                assert(s[i as int].addr == bidder_pubkey@);
                lemma_find_account_at(s, bidder_pubkey@, i as int);
            }
            return Ok(i);
        }
        i += 1;
    }
    proof {
        lemma_find_account_none(s, bidder_pubkey@);
    }
    Err(BiddingError::AccountNotFound)
}

// ---------------------------------------------------------------------------
// Escrow transfers. Balances move between two supplied accounts; a transfer
// aborts rather than overdraw or overflow, and moves nothing when it aborts.
// ---------------------------------------------------------------------------

/// The effect of moving `amount` from `s[from]` to `s[to]`.
pub open spec fn spec_transfer(s: Seq<AccountV>, from: int, to: int, amount: u64) -> Result<
    Seq<AccountV>,
    ProgramFailure,
>
    recommends
        0 <= from < s.len(),
        0 <= to < s.len(),
{
    if s[from].balance < amount {
        Err(ProgramFailure::Bidding(BiddingError::InsufficientFunds))
    } else if from == to {
        Ok(s)
    } else if s[to].balance + amount > u64::MAX {
        Err(ProgramFailure::ArithmeticOverflow)
    } else {
        Ok(
            s.update(from, AccountV { balance: (s[from].balance - amount) as u64, ..s[from] }).update(
                to,
                AccountV { balance: (s[to].balance + amount) as u64, ..s[to] },
            ),
        )
    }
}

/// A successful transfer conserves the sum of the two balances and touches
/// nothing else.
pub proof fn lemma_transfer_shape(s: Seq<AccountV>, from: int, to: int, amount: u64)
    requires
        0 <= from < s.len(),
        0 <= to < s.len(),
        spec_transfer(s, from, to, amount) is Ok,
    ensures
        ({
            let s2 = spec_transfer(s, from, to, amount)->Ok_0;
            &&& s2.len() == s.len()
            &&& forall|j: int|
                0 <= j < s.len() && j != from && j != to ==> s2[j] == s[j]
            &&& forall|j: int| 0 <= j < s.len() ==> (#[trigger] s2[j]).addr == s[j].addr
                && s2[j].data == s[j].data
            &&& s2[from].balance + s2[to].balance == s[from].balance + s[to].balance
        }),
{
}

pub(crate) fn account_out(accounts: &mut Vec<Account>, i: usize) -> (a: Account)
    requires
        i < old(accounts)@.len(),
    ensures
        a == old(accounts)@[i as int],
        final(accounts)@ == old(accounts)@.remove(i as int),
{
    accounts.remove(i)
}

pub(crate) fn account_back(accounts: &mut Vec<Account>, i: usize, a: Account)
    requires
        i <= old(accounts)@.len(),
    ensures
        final(accounts)@ == old(accounts)@.insert(i as int, a),
{
    accounts.insert(i, a);
}

pub(crate) proof fn lemma_remove_insert<T>(s: Seq<T>, i: int, x: T)
    requires
        0 <= i < s.len(),
    ensures
        s.remove(i).insert(i, x) =~= s.update(i, x),
{
}

pub(crate) proof fn lemma_accounts_v_update(s: Seq<Account>, i: int, a: Account)
    requires
        0 <= i < s.len(),
    ensures
        accounts_v(s.update(i, a)) =~= accounts_v(s).update(i, a@),
{
}

/// Moves `amount` between two supplied accounts, refusing to overdraw the
/// source (`InsufficientFunds`) or overflow the destination.
pub fn transfer_from_pda(accounts: &mut Vec<Account>, from: usize, to: usize, amount: u64) -> (r:
    Result<(), ProgramFailure>)
    requires
        from < old(accounts)@.len(),
        to < old(accounts)@.len(),
    ensures
        match spec_transfer(accounts_v(old(accounts)@), from as int, to as int, amount) {
            Ok(s2) => r is Ok && accounts_v(final(accounts)@) == s2 && final(accounts)@.len()
                == old(accounts)@.len(),
            Err(e) => r == Err::<(), ProgramFailure>(e) && final(accounts)@ == old(accounts)@,
        },
{
    let ghost s = accounts_v(accounts@);
    if accounts[from].balance < amount {
        return Err(ProgramFailure::Bidding(BiddingError::InsufficientFunds));
    }
    if from == to {
        return Ok(());
    }
    if u64::MAX - accounts[to].balance < amount {
        return Err(ProgramFailure::ArithmeticOverflow);
    }
    let ghost before = accounts@;
    let mut fa = account_out(accounts, from);
    fa.balance = fa.balance - amount;
    account_back(accounts, from, fa);
    proof {
        lemma_remove_insert(before, from as int, fa);
        lemma_accounts_v_update(before, from as int, fa);
        assert(accounts@ =~= before.update(from as int, fa));
    }
    let ghost mid = accounts@;
    let mut ta = account_out(accounts, to);
    ta.balance = ta.balance + amount;
    account_back(accounts, to, ta);
    proof {
        lemma_remove_insert(mid, to as int, ta);
        lemma_accounts_v_update(mid, to as int, ta);
        assert(accounts@ =~= mid.update(to as int, ta));
        assert(accounts_v(accounts@) =~= spec_transfer(s, from as int, to as int, amount)->Ok_0);
    }
    Ok(())
}

// ---------------------------------------------------------------------------
// Bid-history reconstruction. Settlement replays one record per accepted bid;
// every record must be supplied by the caller, found at its derived address,
// initialized, and readable, else the whole attempt fails.
// ---------------------------------------------------------------------------

/// The record of bid number `bid_number`, located by its derived address in
/// the supplied account list.
pub open spec fn spec_fetch_bid(
    program: Seq<u8>,
    game_id: u64,
    bid_number: u64,
    s: Seq<AccountV>,
) -> Result<BidV, ProgramFailure> {
    let addr = spec_bid_pda(game_id, bid_number, program).0;
    let idx = spec_find_account(s, addr);
    if idx == -1 {
        Err(ProgramFailure::Bidding(BiddingError::BidAccountNotFound))
    } else if s[idx].data.len() == 0 {
        Err(ProgramFailure::Bidding(BiddingError::BidAccountNotInitialized))
    } else {
        match spec_deser_bid(s[idx].data) {
            None => Err(ProgramFailure::Bidding(BiddingError::FailedToDeserializeBidData)),
            Some(b) => Ok(b),
        }
    }
}

/// The first `count` bid records in sequence order, or the failure the first
/// unavailable one raises.
pub open spec fn spec_fetch_history(
    program: Seq<u8>,
    game_id: u64,
    count: u64,
    s: Seq<AccountV>,
) -> Result<Seq<BidV>, ProgramFailure>
    decreases count,
{
    if count == 0 {
        Ok(Seq::empty())
    } else {
        match spec_fetch_history(program, game_id, (count - 1) as u64, s) {
            Err(e) => Err(e),
            Ok(h) => match spec_fetch_bid(program, game_id, count, s) {
                Err(e) => Err(e),
                Ok(b) => Ok(h.push(b)),
            },
        }
    }
}

/// A failed prefix fails the whole reconstruction with the same error.
pub proof fn lemma_fetch_history_err(
    program: Seq<u8>,
    game_id: u64,
    k: u64,
    count: u64,
    s: Seq<AccountV>,
)
    requires
        k <= count,
        spec_fetch_history(program, game_id, k, s) is Err,
    ensures
        spec_fetch_history(program, game_id, count, s) == spec_fetch_history(program, game_id, k, s),
    decreases count,
{
    if count > k {
        lemma_fetch_history_err(program, game_id, k, (count - 1) as u64, s);
    }
}

/// Rebuilds the history of bids `1..=total_bids` from the supplied accounts,
/// verifying each record's derived address.
pub fn fetch_bid_history(
    program_id: &Addr,
    game_id: u64,
    total_bids: u64,
    accounts: &Vec<Account>,
) -> (r: Result<Vec<Bid>, ProgramFailure>)
    ensures
        match r {
            Ok(h) => {
                &&& spec_fetch_history(program_id@, game_id, total_bids, accounts_v(accounts@))
                    == Ok::<Seq<BidV>, ProgramFailure>(bids_v(h@))
                &&& h@.len() == total_bids
            },
            Err(e) => spec_fetch_history(program_id@, game_id, total_bids, accounts_v(accounts@))
                == Err::<Seq<BidV>, ProgramFailure>(e),
        },
{
    let ghost s = accounts_v(accounts@);
    let mut bid_history: Vec<Bid> = Vec::new();
    proof {
        assert(bids_v(bid_history@) =~= Seq::<BidV>::empty());
    }
    let mut done: u64 = 0;
    while done < total_bids
        invariant
            0 <= done <= total_bids,
            s == accounts_v(accounts@),
            spec_fetch_history(program_id@, game_id, done, s) == Ok::<Seq<BidV>, ProgramFailure>(
                bids_v(bid_history@),
            ),
            bid_history@.len() == done,
        decreases total_bids - done,
    {
        let bid_number = done + 1;
        let (bid_pda, _) = bid_pda_seeds(game_id, bid_number, program_id);
        let found = find_account(&bid_pda, accounts);
        match found {
            Ok(idx) => {
                proof {
                    assert(s[idx as int] == accounts@[idx as int]@);
                }
                if accounts[idx].data.len() == 0 {
                    proof {
                        assert(spec_fetch_history(program_id@, game_id, bid_number, s)
                            == Err::<Seq<BidV>, ProgramFailure>(ProgramFailure::Bidding(
                            BiddingError::BidAccountNotInitialized,
                        )));
                        lemma_fetch_history_err(program_id@, game_id, bid_number, total_bids, s);
                    }
                    return Err(ProgramFailure::Bidding(BiddingError::BidAccountNotInitialized));
                }
                let parsed = deserialize_bid(&accounts[idx].data);
                match parsed {
                    Some(b) => {
                        proof {
                            assert(spec_fetch_bid(program_id@, game_id, bid_number, s)
                                == Ok::<BidV, ProgramFailure>(b@));
                        }
                        let ghost old_h = bid_history@;
                        bid_history.push(b);
                        proof {
                            assert(bids_v(old_h.push(b)) =~= bids_v(old_h).push(b@));
                            assert(spec_fetch_history(program_id@, game_id, bid_number, s)
                                == Ok::<Seq<BidV>, ProgramFailure>(bids_v(bid_history@)));
                        }
                    },
                    None => {
                        proof {
                            lemma_fetch_history_err(program_id@, game_id, bid_number, total_bids, s);
                        }
                        return Err(ProgramFailure::Bidding(
                            BiddingError::FailedToDeserializeBidData,
                        ));
                    },
                }
            },
            Err(_) => {
                proof {
                    lemma_fetch_history_err(program_id@, game_id, bid_number, total_bids, s);
                }
                return Err(ProgramFailure::Bidding(BiddingError::BidAccountNotFound));
            },
        }
        done = bid_number;
    }
    Ok(bid_history)
}

/// A field-for-field copy of the supplied account list, for all-or-nothing
/// mutation.
pub fn duplicate_accounts(accounts: &Vec<Account>) -> (r: Vec<Account>)
    ensures
        accounts_v(r@) == accounts_v(accounts@),
        r@.len() == accounts@.len(),
{
    let n = accounts.len();
    let mut r: Vec<Account> = Vec::new();
    let mut i: usize = 0;
    while i < n
        invariant
            0 <= i <= n == accounts@.len(),
            r@.len() == i,
            forall|j: int| 0 <= j < i ==> #[trigger] r@[j]@ == accounts@[j]@,
        decreases n - i,
    {
        let src = &accounts[i];
        let mut data: Vec<u8> = Vec::new();
        let m = src.data.len();
        let mut k: usize = 0;
        while k < m
            invariant
                0 <= k <= m == src.data@.len(),
                data@.len() == k,
                forall|j: int| 0 <= j < k ==> data@[j] == src.data@[j],
            decreases m - k,
        {
            data.push(src.data[k]);
            k += 1;
        }
        proof {
            assert(data@ =~= src.data@);
        }
        r.push(Account { addr: src.addr, balance: src.balance, data });
        i += 1;
    }
    proof {
        assert(accounts_v(r@) =~= accounts_v(accounts@));
    }
    r
}

// ---------------------------------------------------------------------------
// The royalty phase. Each eligible bidder is refunded their bid plus a
// weighted, truncated share of the royalty pool, and their player snapshot is
// marked safe with the share added to its earnings.
// ---------------------------------------------------------------------------

/// Paying one eligible bid: compute the share, refund bid plus share from the
/// game escrow, and enrich the bidder's player snapshot.
pub open spec fn spec_royalty_step(
    s: Seq<AccountV>,
    b: BidV,
    i: int,
    n: int,
    pool: u64,
    tw: u64,
    ta: u64,
    game_idx: int,
    game_id: u64,
    program: Seq<u8>,
) -> Result<Seq<AccountV>, ProgramFailure> {
    let w = n - i;
    if w * b.amount * pool > u128::MAX {
        Err(ProgramFailure::ArithmeticOverflow)
    } else if tw * ta == 0 {
        Err(ProgramFailure::ArithmeticOverflow)
    } else {
        let share = spec_share(w, b.amount as int, pool as int, tw as int, ta as int);
        if b.amount + share > u64::MAX {
            Err(ProgramFailure::ArithmeticOverflow)
        } else {
            let bidder_idx = spec_find_account(s, b.bidder);
            if bidder_idx == -1 {
                Err(ProgramFailure::Bidding(BiddingError::BidderAccountNotFound))
            } else {
                match spec_transfer(s, game_idx, bidder_idx, (b.amount + share) as u64) {
                    Err(_) => Err(ProgramFailure::Bidding(BiddingError::RoyaltyTransferFailed)),
                    Ok(s1) => {
                        let paddr = spec_player_pda(game_id, b.bidder, (i + 1) as u64, program).0;
                        let pidx = spec_find_account(s1, paddr);
                        if pidx == -1 {
                            Err(ProgramFailure::Bidding(BiddingError::AccountNotFound))
                        } else {
                            match spec_deser_player(s1[pidx].data) {
                                Err(e) => Err(e),
                                Ok(p) => {
                                    if p.royalty_earned + share > u64::MAX {
                                        Err(ProgramFailure::ArithmeticOverflow)
                                    } else {
                                        let p2 = PlayerState {
                                            safe: true,
                                            royalty_earned: (p.royalty_earned + share) as u64,
                                            ..p
                                        };
                                        Ok(
                                            s1.update(
                                                pidx,
                                                AccountV {
                                                    data: spec_player_data_updated(
                                                        s1[pidx].data,
                                                        p2,
                                                    ),
                                                    ..s1[pidx]
                                                },
                                            ),
                                        )
                                    }
                                },
                            }
                        }
                    },
                }
            }
        }
    }
}

/// The royalty phase applied to the first `i` eligible bids, oldest first.
pub open spec fn spec_apply_royalties(
    s: Seq<AccountV>,
    elig: Seq<BidV>,
    i: int,
    pool: u64,
    tw: u64,
    ta: u64,
    game_idx: int,
    game_id: u64,
    program: Seq<u8>,
) -> Result<Seq<AccountV>, ProgramFailure>
    decreases i,
{
    if i <= 0 {
        Ok(s)
    } else {
        match spec_apply_royalties(s, elig, i - 1, pool, tw, ta, game_idx, game_id, program) {
            Err(e) => Err(e),
            Ok(s1) => spec_royalty_step(
                s1,
                elig[i - 1],
                i - 1,
                elig.len() as int,
                pool,
                tw,
                ta,
                game_idx,
                game_id,
                program,
            ),
        }
    }
}

/// A failed prefix fails the whole phase with the same error.
pub proof fn lemma_apply_royalties_err(
    s: Seq<AccountV>,
    elig: Seq<BidV>,
    k: int,
    i: int,
    pool: u64,
    tw: u64,
    ta: u64,
    game_idx: int,
    game_id: u64,
    program: Seq<u8>,
)
    requires
        0 <= k <= i,
        spec_apply_royalties(s, elig, k, pool, tw, ta, game_idx, game_id, program) is Err,
    ensures
        spec_apply_royalties(s, elig, i, pool, tw, ta, game_idx, game_id, program)
            == spec_apply_royalties(s, elig, k, pool, tw, ta, game_idx, game_id, program),
    decreases i,
{
    if i > k {
        lemma_apply_royalties_err(s, elig, k, i - 1, pool, tw, ta, game_idx, game_id, program);
    }
}

/// One royalty step moves balances and rewrites one record in place: the
/// account count, every address, and every record length are unchanged.
pub proof fn lemma_royalty_step_shape(
    s: Seq<AccountV>,
    b: BidV,
    i: int,
    n: int,
    pool: u64,
    tw: u64,
    ta: u64,
    game_idx: int,
    game_id: u64,
    program: Seq<u8>,
)
    requires
        0 <= game_idx < s.len(),
        spec_royalty_step(s, b, i, n, pool, tw, ta, game_idx, game_id, program) is Ok,
    ensures
        ({
            let s2 = spec_royalty_step(s, b, i, n, pool, tw, ta, game_idx, game_id, program)->Ok_0;
            &&& s2.len() == s.len()
            &&& forall|j: int| 0 <= j < s.len() ==> (#[trigger] s2[j]).addr == s[j].addr
            &&& forall|j: int| 0 <= j < s.len() ==> (#[trigger] s2[j]).data.len() == s[j].data.len()
        }),
{
    let w = n - i;
    let share = spec_share(w, b.amount as int, pool as int, tw as int, ta as int);
    let bidder_idx = spec_find_account(s, b.bidder);
    lemma_find_account_props(s, b.bidder);
    let s1 = spec_transfer(s, game_idx, bidder_idx, (b.amount + share) as u64)->Ok_0;
    lemma_transfer_shape(s, game_idx, bidder_idx, (b.amount + share) as u64);
    let paddr = spec_player_pda(game_id, b.bidder, (i + 1) as u64, program).0;
    let pidx = spec_find_account(s1, paddr);
    lemma_find_account_props(s1, paddr);
    let p = spec_deser_player(s1[pidx].data)->Ok_0;
    assert(s1[pidx].data.len() >= PLAYER_ACCOUNT_SIZE);
    let p2 = PlayerState { safe: true, royalty_earned: (p.royalty_earned + share) as u64, ..p };
    vstd::bytes::lemma_auto_spec_u64_to_from_le_bytes();
    assert(crate::codec::spec_ser_player(p2).len() == 25);
    assert(spec_player_data_updated(s1[pidx].data, p2).len() == s1[pidx].data.len());
}

/// Refund one eligible bidder from the game escrow: find their account, move
/// the combined refund, and report a failed move as `RoyaltyTransferFailed`.
pub fn transfer_royalty(
    bidder: Addr,
    amount: u64,
    game_idx: usize,
    accounts: &mut Vec<Account>,
) -> (r: Result<(), ProgramFailure>)
    requires
        game_idx < old(accounts)@.len(),
    ensures
        ({
            let s = accounts_v(old(accounts)@);
            let bidder_idx = spec_find_account(s, bidder@);
            if bidder_idx == -1 {
                r == Err::<(), ProgramFailure>(ProgramFailure::Bidding(
                    BiddingError::BidderAccountNotFound,
                )) && final(accounts)@ == old(accounts)@
            } else {
                match spec_transfer(s, game_idx as int, bidder_idx, amount) {
                    Err(_) => r == Err::<(), ProgramFailure>(ProgramFailure::Bidding(
                        BiddingError::RoyaltyTransferFailed,
                    )) && final(accounts)@ == old(accounts)@,
                    Ok(s1) => r is Ok && accounts_v(final(accounts)@) == s1
                        && final(accounts)@.len() == old(accounts)@.len(),
                }
            }
        }),
{
    let found = find_account(&bidder, accounts);
    match found {
        Ok(bidder_idx) => {
            let moved = transfer_from_pda(accounts, game_idx, bidder_idx, amount);
            match moved {
                Ok(_) => Ok(()),
                Err(_) => Err(ProgramFailure::Bidding(BiddingError::RoyaltyTransferFailed)),
            }
        },
        Err(_) => Err(ProgramFailure::Bidding(BiddingError::BidderAccountNotFound)),
    }
}

/// The whole royalty phase: sum weights and amounts over the eligible bids,
/// then pay each eligible bidder in chronological order.
pub open spec fn spec_cal_royalties(
    bid_history: Seq<BidV>,
    royalty_amount: u64,
    program: Seq<u8>,
    game_id: u64,
    game_idx: int,
    s: Seq<AccountV>,
) -> Result<Seq<AccountV>, ProgramFailure>
    recommends
        bid_history.len() >= 5,
{
    let elig = bid_history.take(bid_history.len() - 5);
    let n = elig.len() as int;
    if spec_weight_sum(n, n) > u64::MAX || spec_sum_amounts(elig) > u64::MAX {
        Err(ProgramFailure::ArithmeticOverflow)
    } else {
        spec_apply_royalties(
            s,
            elig,
            n,
            royalty_amount,
            spec_weight_sum(n, n) as u64,
            spec_sum_amounts(elig) as u64,
            game_idx,
            game_id,
            program,
        )
    }
}

/// Pays every eligible bidder their refund and royalty share and enriches
/// their player snapshots; either the whole phase lands or nothing moves.
pub fn cal_royalties(
    bid_history: &Vec<Bid>,
    royalty_amount: u64,
    program_id: &Addr,
    game_id: u64,
    game_idx: usize,
    accounts: &mut Vec<Account>,
) -> (r: Result<(), ProgramFailure>)
    requires
        bid_history@.len() >= 5,
        game_idx < old(accounts)@.len(),
    ensures
        match spec_cal_royalties(
            bids_v(bid_history@),
            royalty_amount,
            program_id@,
            game_id,
            game_idx as int,
            accounts_v(old(accounts)@),
        ) {
            Ok(s2) => r is Ok && accounts_v(final(accounts)@) == s2 && final(accounts)@.len()
                == old(accounts)@.len(),
            Err(e) => r == Err::<(), ProgramFailure>(e) && final(accounts)@ == old(accounts)@,
        },
{
    let ghost hv = bids_v(bid_history@);
    let ghost s0 = accounts_v(accounts@);
    let hist_len = bid_history.len();
    let n_elig = hist_len - 5;
    let ghost elig = hv.take(n_elig as int);
    let ghost n = elig.len() as int;
    proof {
        assert(n == n_elig);
    }
    // First pass: total weight and total amount over the eligible bids.
    let mut total_weight: u64 = 0;
    let mut total_bid_amount: u64 = 0;
    let mut j: usize = 0;
    while j < n_elig
        invariant
            0 <= j <= n_elig,
            n_elig == hist_len - 5,
            hist_len == bid_history@.len() >= 5,
            hv == bids_v(bid_history@),
            elig == hv.take(n_elig as int),
            n == n_elig,
            total_weight as int == spec_weight_sum(n, j as int),
            total_bid_amount as int == spec_sum_amounts(elig.take(j as int)),
        decreases n_elig - j,
    {
        let weight = (n_elig - j) as u64;
        let tw_next = total_weight.checked_add(weight);
        match tw_next {
            Some(t) => {
                total_weight = t;
            },
            None => {
                proof {
                    lemma_weight_sum_mono(n, j as int + 1, n);
                }
                return Err(ProgramFailure::ArithmeticOverflow);
            },
        }
        let ta_next = total_bid_amount.checked_add(bid_history[j].amount);
        match ta_next {
            Some(t) => {
                proof {
                    assert(elig.take(j as int + 1).drop_last() =~= elig.take(j as int));
                    assert(elig.take(j as int + 1).last() == elig[j as int]);
                    assert(elig[j as int] == hv[j as int]);
                }
                total_bid_amount = t;
            },
            None => {
                proof {
                    assert(elig.take(j as int + 1).drop_last() =~= elig.take(j as int));
                    assert(elig.take(j as int + 1).last() == elig[j as int]);
                    lemma_sum_amounts_take_le(elig, j as int + 1);
                }
                return Err(ProgramFailure::ArithmeticOverflow);
            },
        }
        j += 1;
    }
    proof {
        assert(elig.take(n) =~= elig);
    }
    // Second pass: pay each eligible bidder on a scratch copy, committed only
    // when every payment lands.
    let mut work = duplicate_accounts(accounts);
    let mut i: usize = 0;
    while i < n_elig
        invariant
            0 <= i <= n_elig,
            n_elig == hist_len - 5,
            hist_len == bid_history@.len() >= 5,
            hv == bids_v(bid_history@),
            elig == hv.take(n_elig as int),
            n == n_elig,
            s0 == accounts_v(accounts@),
            game_idx < accounts@.len(),
            total_weight as int == spec_weight_sum(n, n),
            total_bid_amount as int == spec_sum_amounts(elig),
            work@.len() == accounts@.len(),
            spec_apply_royalties(
                s0,
                elig,
                i as int,
                royalty_amount,
                total_weight,
                total_bid_amount,
                game_idx as int,
                game_id,
                program_id@,
            ) == Ok::<Seq<AccountV>, ProgramFailure>(accounts_v(work@)),
        decreases n_elig - i,
    {
        let ghost s_pre = accounts_v(work@);
        let bid = bid_history[i];
        let ghost bv = bid@;
        proof {
            assert(elig[i as int] == bv);
        }
        let weight = (n_elig - i) as u64;
        proof {
            assert(0 <= (weight as int) * (bid.amount as int) <= u128::MAX) by (nonlinear_arith)
                requires
                    0 <= weight <= u64::MAX,
                    0 <= bid.amount <= u64::MAX,
            ;
        }
        let num: u128 = (weight as u128) * (bid.amount as u128);
        let num2 = match num.checked_mul(royalty_amount as u128) {
            Some(x) => x,
            None => {
                proof {
                    assert(spec_royalty_step(
                        s_pre,
                        bv,
                        i as int,
                        n,
                        royalty_amount,
                        total_weight,
                        total_bid_amount,
                        game_idx as int,
                        game_id,
                        program_id@,
                    ) == Err::<Seq<AccountV>, ProgramFailure>(ProgramFailure::ArithmeticOverflow));
                    lemma_apply_royalties_err(
                        s0,
                        elig,
                        i as int + 1,
                        n,
                        royalty_amount,
                        total_weight,
                        total_bid_amount,
                        game_idx as int,
                        game_id,
                        program_id@,
                    );
                }
                return Err(ProgramFailure::ArithmeticOverflow);
            },
        };
        proof {
            assert(0 <= (total_weight as int) * (total_bid_amount as int) <= u128::MAX)
                by (nonlinear_arith)
                requires
                    0 <= total_weight <= u64::MAX,
                    0 <= total_bid_amount <= u64::MAX,
            ;
        }
        let den: u128 = (total_weight as u128) * (total_bid_amount as u128);
        if den == 0 {
            proof {
                lemma_apply_royalties_err(
                    s0,
                    elig,
                    i as int + 1,
                    n,
                    royalty_amount,
                    total_weight,
                    total_bid_amount,
                    game_idx as int,
                    game_id,
                    program_id@,
                );
            }
            return Err(ProgramFailure::ArithmeticOverflow);
        }
        let share128 = num2 / den;
        proof {
            lemma_weight_le_sum(n, i as int);
            lemma_amount_le_sum(elig, i as int);
            lemma_sum_amounts_nonneg(elig);
            lemma_weight_sum_nonneg(n, n);
            lemma_share_le_pool(
                weight as int,
                bid.amount as int,
                royalty_amount as int,
                total_weight as int,
                total_bid_amount as int,
            );
            assert(share128 as int == spec_share(
                weight as int,
                bid.amount as int,
                royalty_amount as int,
                total_weight as int,
                total_bid_amount as int,
            ));
        }
        let royalty_share = share128 as u64;
        let total_share = match bid.amount.checked_add(royalty_share) {
            Some(x) => x,
            None => {
                proof {
                    lemma_apply_royalties_err(
                        s0,
                        elig,
                        i as int + 1,
                        n,
                        royalty_amount,
                        total_weight,
                        total_bid_amount,
                        game_idx as int,
                        game_id,
                        program_id@,
                    );
                }
                return Err(ProgramFailure::ArithmeticOverflow);
            },
        };
        let paid = transfer_royalty(bid.bidder, total_share, game_idx, &mut work);
        match paid {
            Ok(_) => {},
            Err(e) => {
                proof {
                    lemma_apply_royalties_err(
                        s0,
                        elig,
                        i as int + 1,
                        n,
                        royalty_amount,
                        total_weight,
                        total_bid_amount,
                        game_idx as int,
                        game_id,
                        program_id@,
                    );
                }
                return Err(e);
            },
        }
        let ghost s1 = accounts_v(work@);
        let bid_counts = (i as u64) + 1;
        let (player_pda, _player_bump) = player_pda_seeds(game_id, &bid.bidder, bid_counts, program_id);
        let found = find_account(&player_pda, &work);
        let player_idx = match found {
            Ok(idx) => idx,
            Err(e) => {
                proof {
                    lemma_apply_royalties_err(
                        s0,
                        elig,
                        i as int + 1,
                        n,
                        royalty_amount,
                        total_weight,
                        total_bid_amount,
                        game_idx as int,
                        game_id,
                        program_id@,
                    );
                }
                return Err(ProgramFailure::Bidding(e));
            },
        };
        let parsed = deserialize_player_state(&work[player_idx].data);
        let player_state = match parsed {
            Ok(p) => p,
            Err(e) => {
                proof {
                    assert(s1[player_idx as int] == work@[player_idx as int]@);
                    lemma_apply_royalties_err(
                        s0,
                        elig,
                        i as int + 1,
                        n,
                        royalty_amount,
                        total_weight,
                        total_bid_amount,
                        game_idx as int,
                        game_id,
                        program_id@,
                    );
                }
                return Err(e);
            },
        };
        proof {
            assert(s1[player_idx as int] == work@[player_idx as int]@);
        }
        let earned = match player_state.royalty_earned.checked_add(royalty_share) {
            Some(x) => x,
            None => {
                proof {
                    lemma_apply_royalties_err(
                        s0,
                        elig,
                        i as int + 1,
                        n,
                        royalty_amount,
                        total_weight,
                        total_bid_amount,
                        game_idx as int,
                        game_id,
                        program_id@,
                    );
                }
                return Err(ProgramFailure::ArithmeticOverflow);
            },
        };
        let updated = PlayerState {
            total_bid_amount: player_state.total_bid_amount,
            safe: true,
            royalty_earned: earned,
            bid_count: player_state.bid_count,
        };
        let ghost before = work@;
        let mut pa = account_out(&mut work, player_idx);
        let nd = update_player_data(&pa.data, &updated);
        pa.data = nd;
        account_back(&mut work, player_idx, pa);
        proof {
            lemma_remove_insert(before, player_idx as int, pa);
            lemma_accounts_v_update(before, player_idx as int, pa);
            assert(work@ =~= before.update(player_idx as int, pa));
            let stepped = spec_royalty_step(
                s_pre,
                bv,
                i as int,
                n,
                royalty_amount,
                total_weight,
                total_bid_amount,
                game_idx as int,
                game_id,
                program_id@,
            );
            assert(accounts_v(work@) =~= stepped->Ok_0);
        }
        i += 1;
    }
    *accounts = work;
    Ok(())
}

/// The royalty phase keeps the account count, every address, and every
/// record length.
pub proof fn lemma_apply_royalties_shape(
    s: Seq<AccountV>,
    elig: Seq<BidV>,
    i: int,
    pool: u64,
    tw: u64,
    ta: u64,
    game_idx: int,
    game_id: u64,
    program: Seq<u8>,
)
    requires
        0 <= game_idx < s.len(),
        spec_apply_royalties(s, elig, i, pool, tw, ta, game_idx, game_id, program) is Ok,
    ensures
        ({
            let s2 = spec_apply_royalties(s, elig, i, pool, tw, ta, game_idx, game_id, program)->Ok_0;
            &&& s2.len() == s.len()
            &&& forall|j: int| 0 <= j < s.len() ==> (#[trigger] s2[j]).addr == s[j].addr
            &&& forall|j: int| 0 <= j < s.len() ==> (#[trigger] s2[j]).data.len() == s[j].data.len()
        }),
    decreases i,
{
    if i > 0 {
        lemma_apply_royalties_shape(s, elig, i - 1, pool, tw, ta, game_idx, game_id, program);
        let s1 = spec_apply_royalties(s, elig, i - 1, pool, tw, ta, game_idx, game_id, program)->Ok_0;
        lemma_royalty_step_shape(
            s1,
            elig[i - 1],
            i - 1,
            elig.len() as int,
            pool,
            tw,
            ta,
            game_idx,
            game_id,
            program,
        );
    }
}

// ---------------------------------------------------------------------------
// Settlement. With fewer than five bids the pot is split between the
// platform fee and the last bidder; with five or more, the fee comes from the
// last five bids, earlier bidders are refunded with royalties, and the last
// bidder takes the whole residual escrow above the rent floor.
// ---------------------------------------------------------------------------

/// Settling a short game: ten percent of the pot to the platform, the rest
/// to the last bidder.
pub open spec fn spec_settle_small(
    s: Seq<AccountV>,
    g: GameStateV,
    history: Seq<BidV>,
) -> Result<(GameStateV, Seq<AccountV>), ProgramFailure>
    recommends
        s.len() >= 3,
{
    if g.prize_pool * 10 > u64::MAX {
        Err(ProgramFailure::ArithmeticOverflow)
    } else {
        let fee = ((g.prize_pool * 10) / 100) as u64;
        let remaining = (g.prize_pool - fee) as u64;
        if history.len() == 0 {
            Err(ProgramFailure::Bidding(BiddingError::NoBidsFound))
        } else {
            let widx = spec_find_account(s, history.last().bidder);
            if widx == -1 {
                Err(ProgramFailure::Bidding(BiddingError::BidderAccountNotFound))
            } else {
                match spec_transfer(s, 2, 1, fee) {
                    Err(e) => Err(e),
                    Ok(s1) => match spec_transfer(s1, 2, widx, remaining) {
                        Err(e) => Err(e),
                        Ok(s2) => {
                            let g2 = GameStateV { game_ended: true, ..g };
                            Ok(
                                (
                                    g2,
                                    s2.update(
                                        2,
                                        AccountV {
                                            data: spec_game_data_updated(s2[2].data, g2),
                                            ..s2[2]
                                        },
                                    ),
                                ),
                            )
                        },
                    },
                }
            }
        }
    }
}

/// Settling a long game: fee from the last five bids, royalties to everyone
/// before them, the residual escrow above the rent floor to the last bidder,
/// whose snapshot is marked safe.
pub open spec fn spec_settle_large(
    program: Seq<u8>,
    game_id: u64,
    s: Seq<AccountV>,
    g: GameStateV,
    history: Seq<BidV>,
    rent_floor: u64,
) -> Result<(GameStateV, Seq<AccountV>), ProgramFailure>
    recommends
        s.len() >= 3,
        history.len() >= 5,
{
    let last5 = history.skip(history.len() - 5);
    if spec_sum_amounts(last5) > u64::MAX {
        Err(ProgramFailure::ArithmeticOverflow)
    } else if spec_sum_amounts(last5) * g.platform_fee_percentage > u64::MAX {
        Err(ProgramFailure::ArithmeticOverflow)
    } else {
        let fee = ((spec_sum_amounts(last5) * g.platform_fee_percentage) / 100) as u64;
        let royalty_amount = history[history.len() - 4].amount;
        match spec_cal_royalties(history, royalty_amount, program, game_id, 2, s) {
            Err(e) => Err(e),
            Ok(s1) => {
                if history.len() == 0 {
                    Err(ProgramFailure::Bidding(BiddingError::NoWinnerFound))
                } else {
                    let widx = spec_find_account(s1, history.last().bidder);
                    if widx == -1 {
                        Err(ProgramFailure::Bidding(BiddingError::AccountNotFound))
                    } else {
                        match spec_transfer(s1, 2, 1, fee) {
                            Err(e) => Err(e),
                            Ok(s2) => {
                                if s2[2].balance < rent_floor {
                                    Err(ProgramFailure::Bidding(BiddingError::InsufficientFunds))
                                } else {
                                    let amount = (s2[2].balance - rent_floor) as u64;
                                    match spec_transfer(s2, 2, widx, amount) {
                                        Err(e) => Err(e),
                                        Ok(s3) => match spec_deser_player(s3[widx].data) {
                                            Err(e) => Err(e),
                                            Ok(p) => {
                                                if p.royalty_earned + amount > u64::MAX {
                                                    Err(ProgramFailure::ArithmeticOverflow)
                                                } else {
                                                    let p2 = PlayerState {
                                                        safe: true,
                                                        royalty_earned: (p.royalty_earned
                                                            + amount) as u64,
                                                        ..p
                                                    };
                                                    let s4 = s3.update(
                                                        widx,
                                                        AccountV {
                                                            data: spec_player_data_updated(
                                                                s3[widx].data,
                                                                p2,
                                                            ),
                                                            ..s3[widx]
                                                        },
                                                    );
                                                    let g2 = GameStateV { game_ended: true, ..g };
                                                    Ok(
                                                        (
                                                            g2,
                                                            s4.update(
                                                                2,
                                                                AccountV {
                                                                    data: spec_game_data_updated(
                                                                        s4[2].data,
                                                                        g2,
                                                                    ),
                                                                    ..s4[2]
                                                                },
                                                            ),
                                                        ),
                                                    )
                                                }
                                            },
                                        },
                                    }
                                }
                            },
                        }
                    }
                }
            },
        }
    }
}

/// The whole settlement: reconstruct the bid history from the supplied
/// accounts, then settle by its length.
pub open spec fn spec_end_game(
    program: Seq<u8>,
    game_id: u64,
    s: Seq<AccountV>,
    g: GameStateV,
    rent_floor: u64,
) -> Result<(GameStateV, Seq<AccountV>), ProgramFailure> {
    if s.len() < 3 {
        Err(ProgramFailure::NotEnoughAccountKeys)
    } else {
        match spec_fetch_history(program, g.game_id, g.total_bids, s) {
            Err(e) => Err(e),
            Ok(history) => if history.len() < 5 {
                spec_settle_small(s, g, history)
            } else {
                spec_settle_large(program, game_id, s, g, history, rent_floor)
            },
        }
    }
}

/// Ends the game: verifies and replays the bid history, pays the platform,
/// the eligible bidders, and the winner, and marks the game ended. Either the
/// whole settlement lands, or nothing changes and the cause is reported.
#[verifier::loop_isolation(false)]
pub fn end_game(
    program_id: &Addr,
    game_id: u64,
    accounts: &mut Vec<Account>,
    game_state: &mut GameState,
    rent_floor: u64,
) -> (r: Result<(), ProgramFailure>)
    requires
        old(accounts)@.len() > 2 ==> old(accounts)@[2].data@.len() == GAME_ACCOUNT_SIZE,
    ensures
        match spec_end_game(
            program_id@,
            game_id,
            accounts_v(old(accounts)@),
            old(game_state)@,
            rent_floor,
        ) {
            Ok((g2, s2)) => r is Ok && final(game_state)@ == g2 && accounts_v(final(accounts)@)
                == s2 && final(accounts)@.len() == old(accounts)@.len(),
            Err(e) => r == Err::<(), ProgramFailure>(e) && final(accounts)@ == old(accounts)@
                && *final(game_state) == *old(game_state),
        },
{
    let ghost s0 = accounts_v(accounts@);
    let ghost g0 = game_state@;
    if accounts.len() < 3 {
        return Err(ProgramFailure::NotEnoughAccountKeys);
    }
    let mut g = *game_state;
    let fetched = fetch_bid_history(program_id, g.game_id, g.total_bids, accounts);
    let bid_history = match fetched {
        Ok(h) => h,
        Err(e) => {
            return Err(e);
        },
    };
    let hist_len = bid_history.len();
    let ghost hv = bids_v(bid_history@);

    if hist_len < 5 {
        let total_amount = g.prize_pool;
        let t10 = match total_amount.checked_mul(10) {
            Some(x) => x,
            None => {
                proof {
                    assert(g0.prize_pool * 10 > u64::MAX);
                    assert(spec_settle_small(s0, g0, hv) == Err::<
                        (GameStateV, Seq<AccountV>),
                        ProgramFailure,
                    >(ProgramFailure::ArithmeticOverflow));
                    assert(spec_end_game(program_id@, game_id, s0, g0, rent_floor) == Err::<
                        (GameStateV, Seq<AccountV>),
                        ProgramFailure,
                    >(ProgramFailure::ArithmeticOverflow));
                }
                return Err(ProgramFailure::ArithmeticOverflow);
            },
        };
        let platform_fee = t10 / 100;
        proof {
            vstd::arithmetic::div_mod::lemma_div_is_ordered(
                t10 as int,
                total_amount as int * 100,
                100,
            );
            vstd::arithmetic::div_mod::lemma_div_multiples_vanish(total_amount as int, 100);
            vstd::arithmetic::div_mod::lemma_div_pos_is_pos(t10 as int, 100);
        }
        let remaining_prize = total_amount - platform_fee;
        if hist_len == 0 {
            return Err(ProgramFailure::Bidding(BiddingError::NoBidsFound));
        }
        let last_bid = bid_history[hist_len - 1];
        proof {
            assert(hv.last() == last_bid@);
        }
        let found = find_account(&last_bid.bidder, accounts);
        let winner = match found {
            Ok(i) => i,
            Err(_) => {
                return Err(ProgramFailure::Bidding(BiddingError::BidderAccountNotFound));
            },
        };
        let mut work = duplicate_accounts(accounts);
        let fee_paid = transfer_from_pda(&mut work, 2, 1, platform_fee);
        match fee_paid {
            Ok(_) => {},
            Err(e) => {
                return Err(e);
            },
        }
        let prize_paid = transfer_from_pda(&mut work, 2, winner, remaining_prize);
        match prize_paid {
            Ok(_) => {},
            Err(e) => {
                return Err(e);
            },
        }
        g.game_ended = true;
        let ghost before = work@;
        let mut ga = account_out(&mut work, 2);
        let nd = update_game_data(&ga.data, &g);
        ga.data = nd;
        account_back(&mut work, 2, ga);
        proof {
            lemma_remove_insert(before, 2, ga);
            lemma_accounts_v_update(before, 2, ga);
            assert(work@ =~= before.update(2, ga));
            let expected = spec_settle_small(s0, g0, hv)->Ok_0;
            assert(accounts_v(work@) =~= expected.1);
        }
        *game_state = g;
        *accounts = work;
        Ok(())
    } else {
        let ghost last5 = hv.skip(hist_len - 5);
        let mut sum5: u64 = 0;
        let mut k: usize = 0;
        while k < 5
            invariant
                0 <= k <= 5,
                hist_len == bid_history@.len() >= 5,
                hv == bids_v(bid_history@),
                last5 == hv.skip(hist_len - 5),
                sum5 as int == spec_sum_amounts(last5.take(k as int)),
            decreases 5 - k,
        {
            let idx = hist_len - 5 + k;
            let next = sum5.checked_add(bid_history[idx].amount);
            proof {
                assert(hv[idx as int] == bid_history@[idx as int]@);
                assert(last5.take(k as int + 1).drop_last() =~= last5.take(k as int));
                assert(last5.take(k as int + 1).last() == last5[k as int]);
                assert(last5[k as int] == hv[idx as int]);
            }
            match next {
                Some(t) => {
                    sum5 = t;
                },
                None => {
                    proof {
                        assert(spec_sum_amounts(last5.take(k as int + 1)) > u64::MAX);
                        lemma_sum_amounts_take_le(last5, k as int + 1);
                        assert(spec_sum_amounts(last5) > u64::MAX);
                        assert(spec_settle_large(program_id@, game_id, s0, g0, hv, rent_floor)
                            == Err::<(GameStateV, Seq<AccountV>), ProgramFailure>(
                            ProgramFailure::ArithmeticOverflow,
                        ));
                        assert(s0.len() >= 3);
                        assert(spec_fetch_history(program_id@, g0.game_id, g0.total_bids, s0)
                            == Ok::<Seq<BidV>, ProgramFailure>(hv));
                        assert(hv.len() == hist_len >= 5);
                        assert(spec_end_game(program_id@, game_id, s0, g0, rent_floor) == Err::<
                            (GameStateV, Seq<AccountV>),
                            ProgramFailure,
                        >(ProgramFailure::ArithmeticOverflow));
                    }
                    return Err(ProgramFailure::ArithmeticOverflow);
                },
            }
            k += 1;
        }
        proof {
            assert(last5.take(5) =~= last5);
        }
        let fee_num = match sum5.checked_mul(g.platform_fee_percentage) {
            Some(x) => x,
            None => {
                return Err(ProgramFailure::ArithmeticOverflow);
            },
        };
        let platform_fee = fee_num / 100;
        let royalty_amount = bid_history[hist_len - 4].amount;
        proof {
            assert(hv[hist_len - 4].amount == royalty_amount);
        }
        let mut work = duplicate_accounts(accounts);
        let royalties = cal_royalties(&bid_history, royalty_amount, program_id, game_id, 2, &mut work);
        match royalties {
            Ok(_) => {},
            Err(e) => {
                return Err(e);
            },
        }
        let ghost s1 = accounts_v(work@);
        proof {
            assert(spec_cal_royalties(hv, royalty_amount, program_id@, game_id, 2, s0)
                == Ok::<Seq<AccountV>, ProgramFailure>(s1));
        }
        if hist_len == 0 {
            return Err(ProgramFailure::Bidding(BiddingError::NoWinnerFound));
        }
        let last_bid = bid_history[hist_len - 1];
        proof {
            assert(hv.last() == last_bid@);
        }
        let found = find_account(&last_bid.bidder, &work);
        let winner = match found {
            Ok(i) => i,
            Err(_) => {
                return Err(ProgramFailure::Bidding(BiddingError::AccountNotFound));
            },
        };
        let fee_paid = transfer_from_pda(&mut work, 2, 1, platform_fee);
        match fee_paid {
            Ok(_) => {},
            Err(e) => {
                return Err(e);
            },
        }
        let ghost s2 = accounts_v(work@);
        let current_balance = work[2].balance;
        proof {
            assert(s2[2] == work@[2]@);
        }
        let amount = match current_balance.checked_sub(rent_floor) {
            Some(a) => a,
            None => {
                return Err(ProgramFailure::Bidding(BiddingError::InsufficientFunds));
            },
        };
        let prize_paid = transfer_from_pda(&mut work, 2, winner, amount);
        match prize_paid {
            Ok(_) => {},
            Err(e) => {
                return Err(e);
            },
        }
        let ghost s3 = accounts_v(work@);
        let parsed = deserialize_player_state(&work[winner].data);
        proof {
            assert(s3[winner as int] == work@[winner as int]@);
        }
        let player_state = match parsed {
            Ok(p) => p,
            Err(e) => {
                return Err(e);
            },
        };
        let earned = match player_state.royalty_earned.checked_add(amount) {
            Some(x) => x,
            None => {
                return Err(ProgramFailure::ArithmeticOverflow);
            },
        };
        let updated = PlayerState {
            total_bid_amount: player_state.total_bid_amount,
            safe: true,
            royalty_earned: earned,
            bid_count: player_state.bid_count,
        };
        let ghost before_w = work@;
        let mut wa = account_out(&mut work, winner);
        let nd = update_player_data(&wa.data, &updated);
        wa.data = nd;
        account_back(&mut work, winner, wa);
        proof {
            lemma_remove_insert(before_w, winner as int, wa);
            lemma_accounts_v_update(before_w, winner as int, wa);
            assert(work@ =~= before_w.update(winner as int, wa));
        }
        g.game_ended = true;
        proof {
            lemma_apply_royalties_shape(
                s0,
                hv.take(hist_len - 5),
                hist_len - 5,
                royalty_amount,
                (spec_weight_sum(hist_len - 5, hist_len - 5)) as u64,
                (spec_sum_amounts(hv.take(hist_len - 5))) as u64,
                2,
                game_id,
                program_id@,
            );
            assert(work@[2]@.data.len() == GAME_ACCOUNT_SIZE);
        }
        let ghost before_g = work@;
        let mut ga = account_out(&mut work, 2);
        let nd2 = update_game_data(&ga.data, &g);
        ga.data = nd2;
        account_back(&mut work, 2, ga);
        proof {
            lemma_remove_insert(before_g, 2, ga);
            lemma_accounts_v_update(before_g, 2, ga);
            assert(work@ =~= before_g.update(2, ga));
            let expected = spec_settle_large(program_id@, game_id, s0, g0, hv, rent_floor)->Ok_0;
            assert(accounts_v(work@) =~= expected.1);
        }
        *game_state = g;
        *accounts = work;
        Ok(())
    }
}

} // verus!
