use vstd::prelude::*;
use vstd::arithmetic::div_mod::{
    lemma_fundamental_div_mod, lemma_div_is_ordered, lemma_div_multiples_vanish,
    lemma_div_pos_is_pos,
};
use crate::state::BidV;

verus! {

// ---------------------------------------------------------------------------
// The weighted royalty split. For `n` eligible bids, the bid at 0-based
// position `i` carries weight `n - i`: the earliest eligible bid weighs the
// most. Each eligible bidder's share of the royalty pool is
// `weight * amount * pool / (total_weight * total_amount)`, truncating.
// ---------------------------------------------------------------------------

/// Sum of the amounts of a bid list.
pub open spec fn spec_sum_amounts(bids: Seq<BidV>) -> int
    decreases bids.len(),
{
    if bids.len() == 0 {
        0
    } else {
        spec_sum_amounts(bids.drop_last()) + bids.last().amount
    }
}

/// Sum of the first `i` weights `n, n-1, ...` of an `n`-entry eligible list.
pub open spec fn spec_weight_sum(n: int, i: int) -> int
    decreases i,
{
    if i <= 0 {
        0
    } else {
        spec_weight_sum(n, i - 1) + (n - (i - 1))
    }
}

/// One bidder's truncated royalty share.
pub open spec fn spec_share(weight: int, amount: int, pool: int, tw: int, ta: int) -> int {
    (weight * amount * pool) / (tw * ta)
}

/// Sum of the shares of the first `i` eligible bids.
pub open spec fn spec_sum_shares(elig: Seq<BidV>, pool: int, tw: int, ta: int, i: int) -> int
    decreases i,
{
    if i <= 0 {
        0
    } else {
        spec_sum_shares(elig, pool, tw, ta, i - 1) + spec_share(
            elig.len() - (i - 1),
            elig[i - 1].amount as int,
            pool,
            tw,
            ta,
        )
    }
}

pub proof fn lemma_sum_amounts_nonneg(bids: Seq<BidV>)
    ensures
        0 <= spec_sum_amounts(bids),
    decreases bids.len(),
{
    if bids.len() > 0 {
        lemma_sum_amounts_nonneg(bids.drop_last());
    }
}

/// A prefix never sums to more than the whole list.
pub proof fn lemma_sum_amounts_take_le(bids: Seq<BidV>, i: int)
    requires
        0 <= i <= bids.len(),
    ensures
        spec_sum_amounts(bids.take(i)) <= spec_sum_amounts(bids),
    decreases bids.len(),
{
    if i == bids.len() {
        assert(bids.take(i) =~= bids);
    } else {
        assert(bids.drop_last().take(i) =~= bids.take(i));
        lemma_sum_amounts_take_le(bids.drop_last(), i);
    }
}

/// No single amount exceeds the sum.
pub proof fn lemma_amount_le_sum(bids: Seq<BidV>, i: int)
    requires
        0 <= i < bids.len(),
    ensures
        bids[i].amount <= spec_sum_amounts(bids),
    decreases bids.len(),
{
    if i == bids.len() - 1 {
        lemma_sum_amounts_nonneg(bids.drop_last());
    } else {
        lemma_amount_le_sum(bids.drop_last(), i);
    }
}

pub proof fn lemma_weight_sum_nonneg(n: int, i: int)
    requires
        i <= n,
    ensures
        0 <= spec_weight_sum(n, i),
    decreases i,
{
    if i > 0 {
        lemma_weight_sum_nonneg(n, i - 1);
    }
}

/// Partial weight sums grow towards the total.
pub proof fn lemma_weight_sum_mono(n: int, i: int, m: int)
    requires
        0 <= i <= m <= n,
    ensures
        spec_weight_sum(n, i) <= spec_weight_sum(n, m),
    decreases m,
{
    if m > i {
        lemma_weight_sum_mono(n, i, m - 1);
    }
}

/// Each weight is at most the full weight sum.
pub proof fn lemma_weight_le_sum(n: int, i: int)
    requires
        0 <= i < n,
    ensures
        n - i <= spec_weight_sum(n, n),
{
    lemma_weight_sum_nonneg(n, i);
    lemma_weight_sum_mono(n, i + 1, n);
}

/// A single truncated share never exceeds the pool, and is never negative.
pub proof fn lemma_share_le_pool(w: int, a: int, pool: int, tw: int, ta: int)
    requires
        0 <= w <= tw,
        0 <= a <= ta,
        0 <= pool,
        0 < tw * ta,
    ensures
        0 <= spec_share(w, a, pool, tw, ta) <= pool,
{
    let num = w * a * pool;
    let den = tw * ta;
    assert(0 <= w * a && w * a <= den) by (nonlinear_arith)
        requires
            0 <= w <= tw,
            0 <= a <= ta,
            den == tw * ta,
    ;
    assert(0 <= num && num <= den * pool) by (nonlinear_arith)
        requires
            0 <= w * a,
            w * a <= den,
            0 <= pool,
            num == w * a * pool,
    ;
    lemma_div_is_ordered(num, den * pool, den);
    lemma_div_multiples_vanish(pool, den);
    if num > 0 {
        lemma_div_pos_is_pos(num, den);
    } else {
        assert(num == 0);
        assert(num / den == 0) by (nonlinear_arith)
            requires
                num == 0,
                0 < den,
        ;
    }
}

/// Truncating division is superadditive over a nonnegative split.
proof fn lemma_div_superadd(a: int, b: int, d: int)
    requires
        0 <= a,
        0 <= b,
        0 < d,
    ensures
        a / d + b / d <= (a + b) / d,
{
    let q = a / d + b / d;
    lemma_fundamental_div_mod(a, d);
    lemma_fundamental_div_mod(b, d);
    assert(a % d >= 0 && b % d >= 0) by {
        vstd::arithmetic::div_mod::lemma_mod_bound(a, d);
        vstd::arithmetic::div_mod::lemma_mod_bound(b, d);
    }
    assert(a + b >= d * q) by (nonlinear_arith)
        requires
            a == d * (a / d) + a % d,
            b == d * (b / d) + b % d,
            a % d >= 0,
            b % d >= 0,
            q == a / d + b / d,
    ;
    lemma_div_multiples_vanish(q, d);
    lemma_div_is_ordered(d * q, a + b, d);
}

/// Sum over the first `i` eligible bids of `weight * amount`.
spec fn spec_sum_wa(elig: Seq<BidV>, i: int) -> int
    decreases i,
{
    if i <= 0 {
        0
    } else {
        spec_sum_wa(elig, i - 1) + (elig.len() - (i - 1)) * elig[i - 1].amount
    }
}

proof fn lemma_sum_wa_le(elig: Seq<BidV>, ta: int, i: int)
    requires
        0 <= i <= elig.len(),
        ta == spec_sum_amounts(elig),
    ensures
        0 <= spec_sum_wa(elig, i) <= spec_weight_sum(elig.len() as int, i) * ta,
    decreases i,
{
    let n = elig.len() as int;
    if i == 0 {
        assert(spec_weight_sum(n, 0) * ta == 0) by (nonlinear_arith);
    } else {
        lemma_sum_wa_le(elig, ta, i - 1);
        let w = n - (i - 1);
        let a = elig[i - 1].amount as int;
        lemma_amount_le_sum(elig, i - 1);
        lemma_sum_amounts_nonneg(elig);
        assert(elig.take(n) =~= elig);
        assert(spec_sum_wa(elig, i) <= spec_weight_sum(n, i) * ta) by (nonlinear_arith)
            requires
                spec_sum_wa(elig, i) == spec_sum_wa(elig, i - 1) + w * a,
                spec_sum_wa(elig, i - 1) <= spec_weight_sum(n, i - 1) * ta,
                spec_weight_sum(n, i) == spec_weight_sum(n, i - 1) + w,
                0 <= a <= ta,
                1 <= w,
        ;
        assert(0 <= spec_sum_wa(elig, i)) by (nonlinear_arith)
            requires
                0 <= spec_sum_wa(elig, i - 1),
                spec_sum_wa(elig, i) == spec_sum_wa(elig, i - 1) + w * a,
                0 <= a,
                1 <= w,
        ;
    }
}

proof fn lemma_sum_shares_le_sum_wa(elig: Seq<BidV>, pool: int, tw: int, ta: int, i: int)
    requires
        0 <= i <= elig.len(),
        0 <= pool,
        0 < tw * ta,
    ensures
        spec_sum_shares(elig, pool, tw, ta, i) <= (pool * spec_sum_wa(elig, i)) / (tw * ta),
        0 <= spec_sum_shares(elig, pool, tw, ta, i),
    decreases i,
{
    let n = elig.len() as int;
    let den = tw * ta;
    if i == 0 {
        assert((pool * 0) / den == 0) by (nonlinear_arith)
            requires
                0 < den,
        ;
    } else {
        lemma_sum_shares_le_sum_wa(elig, pool, tw, ta, i - 1);
        let w = n - (i - 1);
        let a = elig[i - 1].amount as int;
        let prev_num = pool * spec_sum_wa(elig, i - 1);
        let this_num = w * a * pool;
        assert(0 <= this_num) by (nonlinear_arith)
            requires
                0 <= pool,
                1 <= w,
                0 <= a,
                this_num == w * a * pool,
        ;
        assert(0 <= spec_sum_wa(elig, i - 1)) by {
            lemma_sum_wa_le(elig, spec_sum_amounts(elig), i - 1);
        }
        assert(0 <= prev_num) by (nonlinear_arith)
            requires
                0 <= pool,
                0 <= spec_sum_wa(elig, i - 1),
                prev_num == pool * spec_sum_wa(elig, i - 1),
        ;
        lemma_div_superadd(prev_num, this_num, den);
        assert(prev_num + this_num == pool * spec_sum_wa(elig, i)) by (nonlinear_arith)
            requires
                spec_sum_wa(elig, i) == spec_sum_wa(elig, i - 1) + w * a,
                prev_num == pool * spec_sum_wa(elig, i - 1),
                this_num == w * a * pool,
        ;
        assert(spec_share(w, a, pool, tw, ta) == this_num / den);
        if spec_share(w, a, pool, tw, ta) < 0 {
            lemma_div_pos_is_pos(this_num, den);
            assert(this_num / den == 0 || this_num / den > 0) by (nonlinear_arith)
                requires
                    0 <= this_num,
                    0 < den,
            ;
        }
    }
}

/// Royalty conservation: the truncated shares of all eligible bidders sum to
/// at most the royalty pool.
pub proof fn lemma_royalty_conservation(elig: Seq<BidV>, pool: int, tw: int, ta: int)
    requires
        0 <= pool,
        tw == spec_weight_sum(elig.len() as int, elig.len() as int),
        ta == spec_sum_amounts(elig),
        0 < tw * ta,
    ensures
        0 <= spec_sum_shares(elig, pool, tw, ta, elig.len() as int) <= pool,
{
    let n = elig.len() as int;
    let den = tw * ta;
    lemma_sum_shares_le_sum_wa(elig, pool, tw, ta, n);
    lemma_sum_wa_le(elig, ta, n);
    let total_wa = spec_sum_wa(elig, n);
    assert(pool * total_wa <= den * pool) by (nonlinear_arith)
        requires
            0 <= pool,
            0 <= total_wa,
            total_wa <= tw * ta,
            den == tw * ta,
    ;
    assert(0 <= pool * total_wa) by (nonlinear_arith)
        requires
            0 <= pool,
            0 <= total_wa,
    ;
    lemma_div_is_ordered(pool * total_wa, den * pool, den);
    lemma_div_multiples_vanish(pool, den);
}

} // verus!
