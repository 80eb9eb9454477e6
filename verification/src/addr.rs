use vstd::prelude::*;
use vstd::bytes::{spec_u64_to_le_bytes, u64_to_le_bytes, lemma_auto_spec_u64_to_from_le_bytes};

verus! {

broadcast use vstd::array::group_array_axioms;

/// A 32-byte storage address, the only identity the ledger gives an account.
/// Re-deriving the expected address and comparing it with a caller-supplied
/// one is the protocol's sole authorization mechanism.
#[derive(Debug, Clone, Copy)]
pub struct Addr(pub [u8; 32]);

impl View for Addr {
    type V = Seq<u8>;

    open spec fn view(&self) -> Seq<u8> {
        self.0@
    }
}

impl Addr {
    /// Byte-for-byte address equality.
    pub fn equals(&self, other: &Addr) -> (r: bool)
        ensures
            r == (self@ == other@),
    {
        let mut i: usize = 0;
        while i < 32
            invariant
                0 <= i <= 32,
                forall|j: int| 0 <= j < i ==> self.0@[j] == other.0@[j],
            decreases 32 - i,
        {
            if self.0[i] != other.0[i] {
                proof {
                    if self@ == other@ {
                        assert(self.0@[i as int] == other.0@[i as int]);
                    }
                }
                return false;
            }
            i += 1;
        }
        proof {
            assert(self@ =~= other@);
        }
        true
    }
}

/// The address and bump seed that the ledger's program-derived-address
/// function assigns to a seed list under a program id. The function is pure:
/// the same seeds and program id always name the same account.
pub uninterp spec fn pda_of(seeds: Seq<Seq<u8>>, program: Seq<u8>) -> (Seq<u8>, u8);

/// Relies on solana_program::pubkey::Pubkey::find_program_address: the
/// returned address and bump seed depend on the seed list and program id
/// alone (the search is a deterministic hash iteration). The call is total
/// for at most 15 seeds of at most 32 bytes each, up to the statistically
/// negligible case in which no bump seed yields an off-curve address.
#[verifier::external_body]
fn find_pda(seeds: &Vec<Vec<u8>>, program_id: &Addr) -> (r: (Addr, u8))
    requires
        seeds@.len() <= 15,
        forall|i: int| 0 <= i < seeds@.len() ==> (#[trigger] seeds@[i])@.len() <= 32,
    ensures
        (r.0@, r.1) == pda_of(seeds@.map_values(|v: Vec<u8>| v@), program_id@),
{
    let refs: Vec<&[u8]> = seeds.iter().map(|v| v.as_slice()).collect();
    let program = solana_program::pubkey::Pubkey::new_from_array(program_id.0);
    let (key, bump) = solana_program::pubkey::Pubkey::find_program_address(&refs, &program);
    (Addr(key.to_bytes()), bump)
}

/// The namespace tag of game records: the bytes of "game".
pub open spec fn spec_game_tag() -> Seq<u8> {
    seq![103u8, 97u8, 109u8, 101u8]
}

/// The namespace tag of bid records: the bytes of "bid".
pub open spec fn spec_bid_tag() -> Seq<u8> {
    seq![98u8, 105u8, 100u8]
}

/// The namespace tag of player records: the bytes of "player".
pub open spec fn spec_player_tag() -> Seq<u8> {
    seq![112u8, 108u8, 97u8, 121u8, 101u8, 114u8]
}

fn game_tag() -> (v: Vec<u8>)
    ensures
        v@ == spec_game_tag(),
{
    let mut v: Vec<u8> = Vec::new();
    v.push(103);
    v.push(97);
    v.push(109);
    v.push(101);
    proof {
        assert(v@ =~= spec_game_tag());
    }
    v
}

fn bid_tag() -> (v: Vec<u8>)
    ensures
        v@ == spec_bid_tag(),
{
    let mut v: Vec<u8> = Vec::new();
    v.push(98);
    v.push(105);
    v.push(100);
    proof {
        assert(v@ =~= spec_bid_tag());
    }
    v
}

fn player_tag() -> (v: Vec<u8>)
    ensures
        v@ == spec_player_tag(),
{
    let mut v: Vec<u8> = Vec::new();
    v.push(112);
    v.push(108);
    v.push(97);
    v.push(121);
    v.push(101);
    v.push(114);
    proof {
        assert(v@ =~= spec_player_tag());
    }
    v
}

/// Where a game's single mutable record lives.
pub open spec fn spec_game_pda(game_id: u64, program: Seq<u8>) -> (Seq<u8>, u8) {
    pda_of(seq![spec_game_tag(), spec_u64_to_le_bytes(game_id)], program)
}

/// Where the immutable record of bid number `bid_number` lives.
pub open spec fn spec_bid_pda(game_id: u64, bid_number: u64, program: Seq<u8>) -> (Seq<u8>, u8) {
    pda_of(
        seq![spec_bid_tag(), spec_u64_to_le_bytes(game_id), spec_u64_to_le_bytes(bid_number)],
        program,
    )
}

/// Where the per-bid snapshot of `player` at sequence `bid_count` lives.
pub open spec fn spec_player_pda(
    game_id: u64,
    player: Seq<u8>,
    bid_count: u64,
    program: Seq<u8>,
) -> (Seq<u8>, u8) {
    pda_of(
        seq![spec_player_tag(), spec_u64_to_le_bytes(game_id), player, spec_u64_to_le_bytes(bid_count)],
        program,
    )
}

/// Derives the storage address and bump of a game record.
pub fn game_pda_seeds(game_id: u64, program_id: &Addr) -> (r: (Addr, u8))
    ensures
        (r.0@, r.1) == spec_game_pda(game_id, program_id@),
{
    proof {
        lemma_auto_spec_u64_to_from_le_bytes();
    }
    let mut seeds: Vec<Vec<u8>> = Vec::new();
    seeds.push(game_tag());
    seeds.push(u64_to_le_bytes(game_id));
    let r = find_pda(&seeds, program_id);
    proof {
        assert(seeds@.map_values(|v: Vec<u8>| v@) =~= seq![
            spec_game_tag(),
            spec_u64_to_le_bytes(game_id),
        ]);
    }
    r
}

/// Derives the storage address and bump of a bid record.
pub fn bid_pda_seeds(game_id: u64, bid_number: u64, program_id: &Addr) -> (r: (Addr, u8))
    ensures
        (r.0@, r.1) == spec_bid_pda(game_id, bid_number, program_id@),
{
    proof {
        lemma_auto_spec_u64_to_from_le_bytes();
    }
    let mut seeds: Vec<Vec<u8>> = Vec::new();
    seeds.push(bid_tag());
    seeds.push(u64_to_le_bytes(game_id));
    seeds.push(u64_to_le_bytes(bid_number));
    let r = find_pda(&seeds, program_id);
    proof {
        assert(seeds@.map_values(|v: Vec<u8>| v@) =~= seq![
            spec_bid_tag(),
            spec_u64_to_le_bytes(game_id),
            spec_u64_to_le_bytes(bid_number),
        ]);
    }
    r
}

/// Derives the storage address and bump of a player snapshot record.
pub fn player_pda_seeds(
    game_id: u64,
    player_pubkey: &Addr,
    bid_count: u64,
    program_id: &Addr,
) -> (r: (Addr, u8))
    ensures
        (r.0@, r.1) == spec_player_pda(game_id, player_pubkey@, bid_count, program_id@),
{
    proof {
        lemma_auto_spec_u64_to_from_le_bytes();
    }
    let mut seeds: Vec<Vec<u8>> = Vec::new();
    seeds.push(player_tag());
    seeds.push(u64_to_le_bytes(game_id));
    let mut key_bytes: Vec<u8> = Vec::new();
    let mut i: usize = 0;
    while i < 32
        invariant
            0 <= i <= 32,
            key_bytes@.len() == i,
            forall|j: int| 0 <= j < i ==> key_bytes@[j] == player_pubkey.0@[j],
        decreases 32 - i,
    {
        key_bytes.push(player_pubkey.0[i]);
        i += 1;
    }
    proof {
        assert(key_bytes@ =~= player_pubkey@);
    }
    seeds.push(key_bytes);
    seeds.push(u64_to_le_bytes(bid_count));
    let r = find_pda(&seeds, program_id);
    proof {
        assert(seeds@.map_values(|v: Vec<u8>| v@) =~= seq![
            spec_player_tag(),
            spec_u64_to_le_bytes(game_id),
            player_pubkey@,
            spec_u64_to_le_bytes(bid_count),
        ]);
    }
    r
}

} // verus!
