use vstd::prelude::*;
use vstd::arithmetic::div_mod::lemma_div_of0;
use vstd::arithmetic::mul::lemma_mul_by_zero_is_zero;
use crate::contract::{
    burn_post, confirm_post, distribution_valid, mint_future_post, mint_spot_post, transfer_post,
    ContangoToken, Distribution,
};
use crate::fees::{lemma_three_way_split, split_bp};
use crate::series::SeriesMetadata;

verus! {

/// No negative balances: in every well-formed state, every account's
/// available and locked balances are at least zero. Every operation of the
/// ledger requires and re-establishes well-formedness, so this holds in
/// all reachable states.
pub proof fn lemma_no_negative_balances(t: ContangoToken, a: u64)
    requires
        t.wf(),
    ensures
        t.bal(a) >= 0,
        t.locked(a) >= 0,
{
    t.lemma_balances_in_range(a);
}

/// Conservation across a transfer: a successful transfer moves value
/// between accounts only, leaving both the combined held value and the
/// total supply exactly unchanged.
pub proof fn lemma_transfer_conserves(
    pre: ContangoToken,
    post: ContangoToken,
    from: u64,
    to: u64,
    amount: int,
    apply_fee: bool,
)
    requires
        transfer_post(pre, post, from, to, amount, apply_fee),
    ensures
        post.supply() == pre.supply(),
        post.avail_sum() + post.locked_sum() == pre.avail_sum() + pre.locked_sum(),
        pre.conserved() ==> post.conserved(),
{
}

/// Conservation across a burn: a successful burn destroys exactly the net
/// amount from both the held value and the total supply, so the relation
/// between the two is unchanged.
pub proof fn lemma_burn_conserves(pre: ContangoToken, post: ContangoToken, from: u64, amount: int)
    requires
        burn_post(pre, post, from, amount),
    ensures
        post.supply() - (post.avail_sum() + post.locked_sum()) == pre.supply() - (pre.avail_sum()
            + pre.locked_sum()),
        pre.conserved() ==> post.conserved(),
{
}

/// Conservation across a delivery confirmation: unlocking moves value from
/// the locked ledger to the available ledger, leaving the combined held
/// value and the total supply exactly unchanged.
pub proof fn lemma_confirm_conserves(pre: ContangoToken, post: ContangoToken, buyer: u64)
    requires
        confirm_post(pre, post, buyer),
    ensures
        post.supply() == pre.supply(),
        post.avail_sum() + post.locked_sum() == pre.avail_sum() + pre.locked_sum(),
        pre.conserved() ==> post.conserved(),
{
}

/// Conservation across a spot mint, up to truncation: the supply grows by
/// the full minted amount while the held value grows by the three floored
/// shares, so the supply outgrows the held value by a residue of at most
/// two units — and by exactly zero whenever the shares divide evenly.
pub proof fn lemma_mint_spot_conservation(
    pre: ContangoToken,
    post: ContangoToken,
    series_id: String,
    metadata: SeriesMetadata,
    distribution: Distribution,
    amount: int,
)
    requires
        0 <= amount,
        distribution_valid(distribution),
        mint_spot_post(pre, post, series_id, metadata, distribution, amount),
    ensures
        0 <= (post.supply() - (post.avail_sum() + post.locked_sum())) - (pre.supply() - (
        pre.avail_sum() + pre.locked_sum())) <= 2,
{
    lemma_three_way_split(
        amount,
        distribution.producer_percent as int,
        distribution.platform_percent as int,
        distribution.storage_percent as int,
    );
}

/// Conservation across a future mint, up to truncation: as the spot mint,
/// with the fixed 99% / 0.5% / 0.5% shares.
pub proof fn lemma_mint_future_conservation(
    pre: ContangoToken,
    post: ContangoToken,
    series_id: String,
    metadata: SeriesMetadata,
    buyer: u64,
    guarantee_agent: u64,
    amount: int,
)
    requires
        0 <= amount,
        mint_future_post(pre, post, series_id, metadata, buyer, guarantee_agent, amount),
    ensures
        0 <= (post.supply() - (post.avail_sum() + post.locked_sum())) - (pre.supply() - (
        pre.avail_sum() + pre.locked_sum())) <= 2,
{
    lemma_three_way_split(amount, 9900, 50, 50);
}

/// Lock/unlock round trip: minting a future locks exactly the buyer's 99%
/// share; confirming delivery empties the locked balance into the
/// available balance; and afterwards the series can no longer be
/// confirmed, so the transition is one-shot per buyer.
pub proof fn lemma_lock_unlock_round_trip(
    t0: ContangoToken,
    t1: ContangoToken,
    t2: ContangoToken,
    series_id: String,
    metadata: SeriesMetadata,
    buyer: u64,
    guarantee_agent: u64,
    amount: int,
)
    requires
        0 <= amount,
        t0.locked(buyer) == 0,
        mint_future_post(t0, t1, series_id, metadata, buyer, guarantee_agent, amount),
        confirm_post(t1, t2, buyer),
    ensures
        t1.locked(buyer) == split_bp(amount, 9900),
        t2.locked(buyer) == 0,
        t2.bal(buyer) == t1.bal(buyer) + split_bp(amount, 9900),
        !t2.confirmable(series_id@),
{
}

/// Idempotence of a zero transfer: transferring amount zero changes no
/// balance and no total supply; and since balances in a well-formed state
/// are non-negative, a zero transfer can never fail for want of balance.
pub proof fn lemma_zero_transfer(
    pre: ContangoToken,
    post: ContangoToken,
    from: u64,
    to: u64,
    apply_fee: bool,
)
    requires
        pre.wf(),
        transfer_post(pre, post, from, to, 0, apply_fee),
    ensures
        forall|a: u64| post.bal(a) == pre.bal(a),
        forall|a: u64| post.locked(a) == pre.locked(a),
        post.supply() == pre.supply(),
        pre.bal(from) >= 0,
{
    lemma_mul_by_zero_is_zero(pre.spec_config().transfer_fee_percent as int);
    lemma_div_of0(10000);
    pre.lemma_balances_in_range(from);
}

/// Idempotence of a zero burn: burning amount zero changes no balance and
/// no total supply, and can never fail for want of balance.
pub proof fn lemma_zero_burn(pre: ContangoToken, post: ContangoToken, from: u64)
    requires
        pre.wf(),
        burn_post(pre, post, from, 0),
    ensures
        forall|a: u64| post.bal(a) == pre.bal(a),
        forall|a: u64| post.locked(a) == pre.locked(a),
        post.supply() == pre.supply(),
        pre.bal(from) >= 0,
{
    lemma_mul_by_zero_is_zero(pre.spec_config().burn_fee_percent as int);
    lemma_div_of0(10000);
    lemma_div_of0(2);
    pre.lemma_balances_in_range(from);
}

/// Idempotence of a zero mint: minting amount zero credits nothing and
/// leaves the total supply unchanged; only the series metadata is stored.
pub proof fn lemma_zero_mint_spot(
    pre: ContangoToken,
    post: ContangoToken,
    series_id: String,
    metadata: SeriesMetadata,
    distribution: Distribution,
)
    requires
        mint_spot_post(pre, post, series_id, metadata, distribution, 0),
    ensures
        forall|a: u64| post.bal(a) == pre.bal(a),
        forall|a: u64| post.locked(a) == pre.locked(a),
        post.supply() == pre.supply(),
{
    lemma_mul_by_zero_is_zero(distribution.producer_percent as int);
    lemma_mul_by_zero_is_zero(distribution.platform_percent as int);
    lemma_mul_by_zero_is_zero(distribution.storage_percent as int);
    lemma_div_of0(10000);
}

/// Idempotence of a zero future mint: minting amount zero locks nothing,
/// credits nothing and leaves the total supply unchanged; only the series
/// metadata is stored.
pub proof fn lemma_zero_mint_future(
    pre: ContangoToken,
    post: ContangoToken,
    series_id: String,
    metadata: SeriesMetadata,
    buyer: u64,
    guarantee_agent: u64,
)
    requires
        mint_future_post(pre, post, series_id, metadata, buyer, guarantee_agent, 0),
    ensures
        forall|a: u64| post.bal(a) == pre.bal(a),
        forall|a: u64| post.locked(a) == pre.locked(a),
        post.supply() == pre.supply(),
{
    lemma_mul_by_zero_is_zero(9900);
    lemma_mul_by_zero_is_zero(50);
    lemma_div_of0(10000);
}

} // verus!
