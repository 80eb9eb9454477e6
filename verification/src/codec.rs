use vstd::prelude::*;
use vstd::bytes::{
    spec_u64_to_le_bytes, spec_u64_from_le_bytes, u64_to_le_bytes, u64_from_le_bytes,
    lemma_auto_spec_u64_to_from_le_bytes,
};
use vstd::slice::slice_subrange;
use crate::addr::Addr;
use crate::error::ProgramFailure;
use crate::state::{
    GameState, GameStateV, PlayerState, Bid, BidV, GAME_ACCOUNT_SIZE, GAME_RECORD_BYTES,
    PLAYER_ACCOUNT_SIZE, PLAYER_RECORD_BYTES, BID_ACCOUNT_SIZE,
};

verus! {

broadcast use vstd::array::group_array_axioms;

// ---------------------------------------------------------------------------
// Record layouts. Every integer is eight bytes little endian, identities are
// 32 raw bytes, flags one byte; fields follow declaration order.
// ---------------------------------------------------------------------------

/// The 89 meaningful bytes of a game record.
pub open spec fn spec_ser_game_body(g: GameStateV) -> Seq<u8> {
    spec_u64_to_le_bytes(g.game_id) + spec_u64_to_le_bytes(g.initial_bid_amount)
        + spec_u64_to_le_bytes(g.highest_bid) + spec_u64_to_le_bytes(g.last_bid_time)
        + spec_u64_to_le_bytes(g.total_bids) + g.last_bidder
        + spec_u64_to_le_bytes(g.prize_pool) + spec_u64_to_le_bytes(g.platform_fee_percentage)
        + seq![if g.game_ended { 1u8 } else { 0u8 }]
}

/// A freshly written game record: the body padded with zeroes to the
/// allocation size.
pub open spec fn spec_ser_game(g: GameStateV) -> Seq<u8> {
    spec_ser_game_body(g) + seq![0u8, 0u8, 0u8, 0u8, 0u8, 0u8, 0u8]
}

/// Reading a game record: the byte length must match the allocation size
/// exactly; the flag byte is true iff nonzero.
pub open spec fn spec_deser_game(d: Seq<u8>) -> Result<GameStateV, ProgramFailure> {
    if d.len() != GAME_ACCOUNT_SIZE as int {
        Err(ProgramFailure::InvalidAccountData)
    } else {
        Ok(
            GameStateV {
                game_id: spec_u64_from_le_bytes(d.subrange(0, 8)),
                initial_bid_amount: spec_u64_from_le_bytes(d.subrange(8, 16)),
                highest_bid: spec_u64_from_le_bytes(d.subrange(16, 24)),
                last_bid_time: spec_u64_from_le_bytes(d.subrange(24, 32)),
                total_bids: spec_u64_from_le_bytes(d.subrange(32, 40)),
                last_bidder: d.subrange(40, 72),
                prize_pool: spec_u64_from_le_bytes(d.subrange(72, 80)),
                platform_fee_percentage: spec_u64_from_le_bytes(d.subrange(80, 88)),
                game_ended: d[88] != 0,
            },
        )
    }
}

/// The 25 meaningful bytes of a player record.
pub open spec fn spec_ser_player(p: PlayerState) -> Seq<u8> {
    spec_u64_to_le_bytes(p.total_bid_amount) + seq![if p.safe { 1u8 } else { 0u8 }]
        + spec_u64_to_le_bytes(p.royalty_earned) + spec_u64_to_le_bytes(p.bid_count)
}

/// Reading a player record tolerates oversized data but not undersized.
pub open spec fn spec_deser_player(d: Seq<u8>) -> Result<PlayerState, ProgramFailure> {
    if d.len() < PLAYER_ACCOUNT_SIZE as int {
        Err(ProgramFailure::AccountDataTooSmall)
    } else {
        Ok(
            PlayerState {
                total_bid_amount: spec_u64_from_le_bytes(d.subrange(0, 8)),
                safe: d[8] != 0,
                royalty_earned: spec_u64_from_le_bytes(d.subrange(9, 17)),
                bid_count: spec_u64_from_le_bytes(d.subrange(17, 25)),
            },
        )
    }
}

/// A bid record's 48 bytes.
pub open spec fn spec_ser_bid(b: BidV) -> Seq<u8> {
    b.bidder + spec_u64_to_le_bytes(b.amount) + spec_u64_to_le_bytes(b.timestamp)
}

/// Reading a bid record demands the exact length.
pub open spec fn spec_deser_bid(d: Seq<u8>) -> Option<BidV> {
    if d.len() != BID_ACCOUNT_SIZE as int {
        None
    } else {
        Some(
            BidV {
                bidder: d.subrange(0, 32),
                amount: spec_u64_from_le_bytes(d.subrange(32, 40)),
                timestamp: spec_u64_from_le_bytes(d.subrange(40, 48)),
            },
        )
    }
}

// ---------------------------------------------------------------------------
// Executable readers and writers.
// ---------------------------------------------------------------------------

pub(crate) fn read_u64(data: &Vec<u8>, off: usize) -> (r: u64)
    requires
        off + 8 <= data@.len(),
    ensures
        r == spec_u64_from_le_bytes(data@.subrange(off as int, off as int + 8)),
{
    let n = data.len();
    let s = slice_subrange(data.as_slice(), off, off + 8);
    u64_from_le_bytes(s)
}

fn read_addr(data: &Vec<u8>, off: usize) -> (r: Addr)
    requires
        off + 32 <= data@.len(),
    ensures
        r@ == data@.subrange(off as int, off as int + 32),
{
    let n = data.len();
    let mut arr: [u8; 32] = [0; 32];
    let mut i: usize = 0;
    while i < 32
        invariant
            0 <= i <= 32,
            off + 32 <= n == data@.len(),
            forall|j: int| 0 <= j < i ==> arr@[j] == data@[off + j],
        decreases 32 - i,
    {
        arr[i] = data[off + i];
        i += 1;
    }
    proof {
        assert(arr@ =~= data@.subrange(off as int, off as int + 32));
    }
    Addr(arr)
}

fn push_u64(out: &mut Vec<u8>, x: u64)
    ensures
        final(out)@ == old(out)@ + spec_u64_to_le_bytes(x),
{
    let mut b = u64_to_le_bytes(x);
    out.append(&mut b);
}

fn push_addr(out: &mut Vec<u8>, a: &Addr)
    ensures
        final(out)@ == old(out)@ + a@,
{
    let ghost start = out@;
    let mut i: usize = 0;
    while i < 32
        invariant
            0 <= i <= 32,
            out@ == start + a.0@.subrange(0, i as int),
        decreases 32 - i,
    {
        out.push(a.0[i]);
        proof {
            assert(start + a.0@.subrange(0, i + 1 as int) =~= (start + a.0@.subrange(
                0,
                i as int,
            )).push(a.0@[i as int]));
        }
        i += 1;
    }
    proof {
        assert(a.0@.subrange(0, 32) =~= a@);
    }
}

/// Serializes a fresh game record, padded to the allocation size.
pub fn serialize_game_state(g: &GameState) -> (v: Vec<u8>)
    ensures
        v@ == spec_ser_game(g@),
        v@.len() == GAME_ACCOUNT_SIZE,
{
    proof {
        lemma_auto_spec_u64_to_from_le_bytes();
    }
    let mut v = serialize_game_body(g);
    let mut i: usize = 0;
    while i < 7
        invariant
            0 <= i <= 7,
            v@ == spec_ser_game_body(g@) + Seq::new(i as nat, |j: int| 0u8),
        decreases 7 - i,
    {
        v.push(0);
        proof {
            assert(spec_ser_game_body(g@) + Seq::new((i + 1) as nat, |j: int| 0u8)
                =~= (spec_ser_game_body(g@) + Seq::new(i as nat, |j: int| 0u8)).push(0u8));
        }
        i += 1;
    }
    proof {
        assert(v@ =~= spec_ser_game(g@));
        assert(spec_ser_game_body(g@).len() == 89);
    }
    v
}

/// Serializes the 89 meaningful bytes of a game record.
pub fn serialize_game_body(g: &GameState) -> (v: Vec<u8>)
    ensures
        v@ == spec_ser_game_body(g@),
        v@.len() == GAME_RECORD_BYTES,
{
    proof {
        lemma_auto_spec_u64_to_from_le_bytes();
    }
    let mut v: Vec<u8> = Vec::new();
    push_u64(&mut v, g.game_id);
    push_u64(&mut v, g.initial_bid_amount);
    push_u64(&mut v, g.highest_bid);
    push_u64(&mut v, g.last_bid_time);
    push_u64(&mut v, g.total_bids);
    push_addr(&mut v, &g.last_bidder);
    push_u64(&mut v, g.prize_pool);
    push_u64(&mut v, g.platform_fee_percentage);
    v.push(if g.game_ended { 1 } else { 0 });
    proof {
        assert(v@ =~= spec_ser_game_body(g@));
    }
    v
}

/// Reads a game record back; the data must be exactly the allocation size.
pub fn deserialize_game_state(account_data: &Vec<u8>) -> (r: Result<GameState, ProgramFailure>)
    ensures
        match r {
            Ok(g) => spec_deser_game(account_data@) == Ok::<GameStateV, ProgramFailure>(g@),
            Err(e) => spec_deser_game(account_data@) == Err::<GameStateV, ProgramFailure>(e),
        },
{
    if account_data.len() != GAME_ACCOUNT_SIZE {
        return Err(ProgramFailure::InvalidAccountData);
    }
    let g = GameState {
        game_id: read_u64(account_data, 0),
        initial_bid_amount: read_u64(account_data, 8),
        highest_bid: read_u64(account_data, 16),
        last_bid_time: read_u64(account_data, 24),
        total_bids: read_u64(account_data, 32),
        last_bidder: read_addr(account_data, 40),
        prize_pool: read_u64(account_data, 72),
        platform_fee_percentage: read_u64(account_data, 80),
        game_ended: account_data[88] != 0,
    };
    Ok(g)
}

/// Serializes the 25 meaningful bytes of a player record.
pub fn serialize_player_state(p: &PlayerState) -> (v: Vec<u8>)
    ensures
        v@ == spec_ser_player(*p),
        v@.len() == PLAYER_RECORD_BYTES,
{
    proof {
        lemma_auto_spec_u64_to_from_le_bytes();
    }
    let mut v: Vec<u8> = Vec::new();
    push_u64(&mut v, p.total_bid_amount);
    v.push(if p.safe { 1 } else { 0 });
    push_u64(&mut v, p.royalty_earned);
    push_u64(&mut v, p.bid_count);
    proof {
        assert(v@ =~= spec_ser_player(*p));
    }
    v
}

/// Reads a player record back; oversized data is tolerated, undersized is
/// not.
pub fn deserialize_player_state(account_data: &Vec<u8>) -> (r: Result<PlayerState, ProgramFailure>)
    ensures
        match r {
            Ok(p) => spec_deser_player(account_data@) == Ok::<PlayerState, ProgramFailure>(p),
            Err(e) => spec_deser_player(account_data@) == Err::<PlayerState, ProgramFailure>(e),
        },
{
    if account_data.len() < PLAYER_ACCOUNT_SIZE {
        return Err(ProgramFailure::AccountDataTooSmall);
    }
    let p = PlayerState {
        total_bid_amount: read_u64(account_data, 0),
        safe: account_data[8] != 0,
        royalty_earned: read_u64(account_data, 9),
        bid_count: read_u64(account_data, 17),
    };
    Ok(p)
}

/// Serializes a bid record.
pub fn serialize_bid(b: &Bid) -> (v: Vec<u8>)
    ensures
        v@ == spec_ser_bid(b@),
        v@.len() == BID_ACCOUNT_SIZE,
{
    proof {
        lemma_auto_spec_u64_to_from_le_bytes();
    }
    let mut v: Vec<u8> = Vec::new();
    push_addr(&mut v, &b.bidder);
    push_u64(&mut v, b.amount);
    push_u64(&mut v, b.timestamp);
    proof {
        assert(v@ =~= spec_ser_bid(b@));
    }
    v
}

/// Reads a bid record; anything but exactly 48 bytes is malformed.
pub fn deserialize_bid(data: &Vec<u8>) -> (r: Option<Bid>)
    ensures
        match r {
            Some(b) => spec_deser_bid(data@) == Some(b@),
            None => spec_deser_bid(data@) is None,
        },
{
    if data.len() != BID_ACCOUNT_SIZE {
        return None;
    }
    let b = Bid {
        bidder: read_addr(data, 0),
        amount: read_u64(data, 32),
        timestamp: read_u64(data, 40),
    };
    Some(b)
}

/// A game record rewritten in place: the body is replaced, bytes past it are
/// preserved.
pub open spec fn spec_game_data_updated(old_data: Seq<u8>, g: GameStateV) -> Seq<u8> {
    spec_ser_game_body(g) + old_data.skip(GAME_RECORD_BYTES as int)
}

/// Rewrites a game record in place.
pub fn update_game_data(data: &Vec<u8>, g: &GameState) -> (nd: Vec<u8>)
    requires
        data@.len() >= GAME_RECORD_BYTES,
    ensures
        nd@ == spec_game_data_updated(data@, g@),
        nd@.len() == data@.len(),
{
    let mut nd = serialize_game_body(g);
    let mut i: usize = GAME_RECORD_BYTES;
    while i < data.len()
        invariant
            GAME_RECORD_BYTES <= i <= data@.len(),
            nd@ == spec_ser_game_body(g@) + data@.subrange(GAME_RECORD_BYTES as int, i as int),
        decreases data@.len() - i,
    {
        nd.push(data[i]);
        proof {
            assert(spec_ser_game_body(g@) + data@.subrange(GAME_RECORD_BYTES as int, i + 1)
                =~= (spec_ser_game_body(g@) + data@.subrange(
                GAME_RECORD_BYTES as int,
                i as int,
            )).push(data@[i as int]));
        }
        i += 1;
    }
    proof {
        assert(data@.subrange(GAME_RECORD_BYTES as int, data@.len() as int) =~= data@.skip(
            GAME_RECORD_BYTES as int,
        ));
        assert(spec_ser_game_body(g@).len() == 89);
    }
    nd
}

/// A player record rewritten in place: the body is replaced, bytes past it
/// are preserved.
pub open spec fn spec_player_data_updated(old_data: Seq<u8>, p: PlayerState) -> Seq<u8> {
    spec_ser_player(p) + old_data.skip(PLAYER_RECORD_BYTES as int)
}

/// Rewrites a player record in place.
pub fn update_player_data(data: &Vec<u8>, p: &PlayerState) -> (nd: Vec<u8>)
    requires
        data@.len() >= PLAYER_RECORD_BYTES,
    ensures
        nd@ == spec_player_data_updated(data@, *p),
        nd@.len() == data@.len(),
{
    let mut nd = serialize_player_state(p);
    let mut i: usize = PLAYER_RECORD_BYTES;
    while i < data.len()
        invariant
            PLAYER_RECORD_BYTES <= i <= data@.len(),
            nd@ == spec_ser_player(*p) + data@.subrange(PLAYER_RECORD_BYTES as int, i as int),
        decreases data@.len() - i,
    {
        nd.push(data[i]);
        proof {
            assert(spec_ser_player(*p) + data@.subrange(PLAYER_RECORD_BYTES as int, i + 1)
                =~= (spec_ser_player(*p) + data@.subrange(
                PLAYER_RECORD_BYTES as int,
                i as int,
            )).push(data@[i as int]));
        }
        i += 1;
    }
    proof {
        assert(data@.subrange(PLAYER_RECORD_BYTES as int, data@.len() as int) =~= data@.skip(
            PLAYER_RECORD_BYTES as int,
        ));
        assert(spec_ser_player(*p).len() == 25);
    }
    nd
}

// ---------------------------------------------------------------------------
// Round trips: reading a freshly written record yields the record.
// ---------------------------------------------------------------------------

/// A game record written over any 7 trailing bytes reads back unchanged.
pub proof fn lemma_game_record_roundtrip(g: GameStateV, tail: Seq<u8>)
    requires
        g.last_bidder.len() == 32,
        tail.len() == 7,
    ensures
        spec_deser_game(spec_ser_game_body(g) + tail) == Ok::<GameStateV, ProgramFailure>(g),
{
    lemma_auto_spec_u64_to_from_le_bytes();
    let d = spec_ser_game_body(g) + tail;
    assert(spec_ser_game_body(g).len() == 89);
    assert(d.subrange(0, 8) =~= spec_u64_to_le_bytes(g.game_id));
    assert(d.subrange(8, 16) =~= spec_u64_to_le_bytes(g.initial_bid_amount));
    assert(d.subrange(16, 24) =~= spec_u64_to_le_bytes(g.highest_bid));
    assert(d.subrange(24, 32) =~= spec_u64_to_le_bytes(g.last_bid_time));
    assert(d.subrange(32, 40) =~= spec_u64_to_le_bytes(g.total_bids));
    assert(d.subrange(40, 72) =~= g.last_bidder);
    assert(d.subrange(72, 80) =~= spec_u64_to_le_bytes(g.prize_pool));
    assert(d.subrange(80, 88) =~= spec_u64_to_le_bytes(g.platform_fee_percentage));
    assert(d[88] == if g.game_ended { 1u8 } else { 0u8 });
}

/// A player record written over a padded buffer reads back unchanged.
pub proof fn lemma_player_record_roundtrip(p: PlayerState, tail: Seq<u8>)
    requires
        25 + tail.len() >= 32,
    ensures
        spec_deser_player(spec_ser_player(p) + tail) == Ok::<PlayerState, ProgramFailure>(p),
{
    lemma_auto_spec_u64_to_from_le_bytes();
    let d = spec_ser_player(p) + tail;
    assert(spec_ser_player(p).len() == 25);
    assert(d.subrange(0, 8) =~= spec_u64_to_le_bytes(p.total_bid_amount));
    assert(d[8] == if p.safe { 1u8 } else { 0u8 });
    assert(d.subrange(9, 17) =~= spec_u64_to_le_bytes(p.royalty_earned));
    assert(d.subrange(17, 25) =~= spec_u64_to_le_bytes(p.bid_count));
}

/// A bid record reads back unchanged.
pub proof fn lemma_bid_record_roundtrip(b: BidV)
    requires
        b.bidder.len() == 32,
    ensures
        spec_deser_bid(spec_ser_bid(b)) == Some(b),
{
    lemma_auto_spec_u64_to_from_le_bytes();
    let d = spec_ser_bid(b);
    assert(d.len() == 48);
    assert(d.subrange(0, 32) =~= b.bidder);
    assert(d.subrange(32, 40) =~= spec_u64_to_le_bytes(b.amount));
    assert(d.subrange(40, 48) =~= spec_u64_to_le_bytes(b.timestamp));
}

} // verus!
