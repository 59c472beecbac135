use vstd::prelude::*;
use vstd::arithmetic::div_mod::{
    lemma_div_is_ordered, lemma_div_multiples_vanish, lemma_div_pos_is_pos,
    lemma_fundamental_div_mod, lemma_mod_bound,
};
use vstd::arithmetic::mul::{
    lemma_mul_inequality, lemma_mul_is_commutative, lemma_mul_is_distributive_add,
    lemma_mul_nonnegative,
};
use crate::errors::Error;
use crate::ledger::Ledger;
use crate::storage_types::{AllowanceRegistry, AllowanceValue};

verus! {

/// The basis-point share of an amount: `floor(amount * rate_bp / 10_000)`,
/// with 10,000 basis points standing for one hundred percent.
pub open spec fn split_bp(amount: int, rate_bp: int) -> int {
    amount * rate_bp / 10000
}

/// A basis-point share of a non-negative amount lies between zero and the
/// amount itself whenever the rate is at most 10,000.
pub proof fn lemma_split_bp_range(amount: int, rate_bp: int)
    requires
        0 <= amount,
        0 <= rate_bp <= 10000,
    ensures
        0 <= split_bp(amount, rate_bp) <= amount,
{
    lemma_mul_nonnegative(amount, rate_bp);
    lemma_div_pos_is_pos(amount * rate_bp, 10000);
    lemma_mul_inequality(rate_bp, 10000, amount);
    lemma_mul_is_commutative(amount, rate_bp);
    lemma_mul_is_commutative(amount, 10000);
    lemma_div_is_ordered(amount * rate_bp, amount * 10000, 10000);
    lemma_div_multiples_vanish(amount, 10000);
    assert(10000 * amount == amount * 10000) by {
        lemma_mul_is_commutative(10000, amount);
    }
}

/// Two basis-point shares of one amount never exceed the single share taken
/// at the summed rate: rounding is applied to each share independently, so
/// splitting can only lose value to truncation, never create it.
pub proof fn lemma_split_bp_sum(amount: int, p: int, q: int)
    requires
        0 <= amount,
        0 <= p,
        0 <= q,
    ensures
        split_bp(amount, p) + split_bp(amount, q) <= split_bp(amount, p + q),
{
    let s1 = split_bp(amount, p);
    let s2 = split_bp(amount, q);
    lemma_fundamental_div_mod(amount * p, 10000);
    lemma_fundamental_div_mod(amount * q, 10000);
    lemma_mod_bound(amount * p, 10000);
    lemma_mod_bound(amount * q, 10000);
    lemma_mul_is_distributive_add(amount, p, q);
    assert(amount * (p + q) >= 10000 * (s1 + s2)) by {
        lemma_mul_is_distributive_add(10000, s1, s2);
    }
    lemma_div_is_ordered(10000 * (s1 + s2), amount * (p + q), 10000);
    lemma_div_multiples_vanish(s1 + s2, 10000);
}

/// Splitting a non-negative amount three ways at rates that sum to exactly
/// 10,000 basis points returns the whole amount up to a truncation residue
/// of at most two units.
pub proof fn lemma_three_way_split(amount: int, p: int, q: int, r: int)
    requires
        0 <= amount,
        0 <= p,
        0 <= q,
        0 <= r,
        p + q + r == 10000,
    ensures
        split_bp(amount, p) + split_bp(amount, q) + split_bp(amount, r) <= amount,
        split_bp(amount, p) + split_bp(amount, q) + split_bp(amount, r) >= amount - 2,
{
    let s1 = split_bp(amount, p);
    let s2 = split_bp(amount, q);
    let s3 = split_bp(amount, r);
    lemma_fundamental_div_mod(amount * p, 10000);
    lemma_fundamental_div_mod(amount * q, 10000);
    lemma_fundamental_div_mod(amount * r, 10000);
    lemma_mod_bound(amount * p, 10000);
    lemma_mod_bound(amount * q, 10000);
    lemma_mod_bound(amount * r, 10000);
    assert(amount * p + amount * q + amount * r == amount * 10000) by {
        lemma_mul_is_distributive_add(amount, p, q);
        lemma_mul_is_distributive_add(amount, p + q, r);
    }
    assert(10000 * (s1 + s2 + s3) + (amount * p % 10000) + (amount * q % 10000) + (amount * r
        % 10000) == amount * 10000) by {
        lemma_mul_is_distributive_add(10000, s1, s2);
        lemma_mul_is_distributive_add(10000, s1 + s2, s3);
    }
    assert(amount * 10000 == 10000 * amount) by {
        lemma_mul_is_commutative(amount, 10000);
    }
}

/// Compute the basis-point share of a non-negative amount, truncating toward
/// zero: the fee engine's elementary operation.
pub fn split(amount: i128, rate_bp: u32) -> (fee: i128)
    requires
        0 <= amount,
        rate_bp <= 10000,
        amount * rate_bp <= i128::MAX,
    ensures
        fee == split_bp(amount as int, rate_bp as int),
        0 <= fee <= amount,
{
    proof {
        lemma_mul_nonnegative(amount as int, rate_bp as int);
        lemma_split_bp_range(amount as int, rate_bp as int);
    }
    (amount * (rate_bp as i128)) / 10000
}

/// The fee configuration of the two-party transfer ledger: two fee
/// recipients, each with a rate in basis points. The rates together never
/// name more than the whole amount.
pub struct FeeConfig {
    pub mediator_address: u64,
    pub buyer_address: u64,
    pub mediator_fee: u32,
    pub buyer_fee: u32,
}

impl FeeConfig {
    /// The two rates sum to at most 10,000 basis points, so the net amount
    /// of a fee split is never negative.
    pub open spec fn wf(self) -> bool {
        self.mediator_fee + self.buyer_fee <= 10000
    }
}

/// The outcome of a two-party fee split: both fees are computed
/// independently from the gross amount, never from a shrinking remainder,
/// and the net amount is what remains after both are taken.
pub struct FeeCalculation {
    pub mediator_fee: i128,
    pub buyer_fee: i128,
    pub net_amount: i128,
}

impl FeeCalculation {
    /// Split an amount into the mediator's share, the buyer-fee share and
    /// the net remainder.
    pub fn calculate(amount: i128, config: &FeeConfig) -> (r: FeeCalculation)
        requires
            0 <= amount,
            config.wf(),
            amount * 10000 <= i128::MAX,
        ensures
            r.mediator_fee == split_bp(amount as int, config.mediator_fee as int),
            r.buyer_fee == split_bp(amount as int, config.buyer_fee as int),
            r.net_amount == amount - r.mediator_fee - r.buyer_fee,
            0 <= r.mediator_fee,
            0 <= r.buyer_fee,
            0 <= r.net_amount <= amount,
    {
        proof {
            lemma_mul_inequality(config.mediator_fee as int, 10000, amount as int);
            lemma_mul_inequality(config.buyer_fee as int, 10000, amount as int);
            lemma_mul_is_commutative(amount as int, config.mediator_fee as int);
            lemma_mul_is_commutative(amount as int, config.buyer_fee as int);
            lemma_mul_is_commutative(amount as int, 10000);
            lemma_split_bp_range(amount as int, config.mediator_fee as int);
            lemma_split_bp_range(amount as int, config.buyer_fee as int);
            lemma_split_bp_sum(amount as int, config.mediator_fee as int, config.buyer_fee as int);
            lemma_split_bp_range(
                amount as int,
                config.mediator_fee as int + config.buyer_fee as int,
            );
        }
        let mediator_fee = split(amount, config.mediator_fee);
        let buyer_fee = split(amount, config.buyer_fee);
        let total_fees: i128 = mediator_fee + buyer_fee;
        let net_amount: i128 = amount - total_fees;
        FeeCalculation { mediator_fee, buyer_fee, net_amount }
    }
}

/// The balance movement of a fee-splitting transfer, stated account by
/// account so that coinciding recipients are summed correctly: the sender
/// loses the gross amount, the recipient gains the net, and each fee
/// recipient gains its share.
pub open spec fn fee_transfer_delta(
    config: FeeConfig,
    from: u64,
    to: u64,
    amount: int,
    a: u64,
) -> int {
    (if a == from {
        -amount
    } else {
        0
    }) + (if a == to {
        amount - split_bp(amount, config.mediator_fee as int) - split_bp(
            amount,
            config.buyer_fee as int,
        )
    } else {
        0
    }) + (if a == config.mediator_address {
        split_bp(amount, config.mediator_fee as int)
    } else {
        0
    }) + (if a == config.buyer_address {
        split_bp(amount, config.buyer_fee as int)
    } else {
        0
    })
}

/// Transfer with the two-party fee split. The sender is debited the gross
/// amount; the recipient is credited the net amount; the mediator and the
/// buyer-fee recipient are credited their shares of the gross amount. All
/// mutations happen as one unit: on any failure no balance changes, and on
/// success the ledger's total is unchanged.
pub fn process_fees_and_transfer(
    ledger: &mut Ledger,
    config: &FeeConfig,
    from: u64,
    to: u64,
    amount: i128,
) -> (r: Result<(), Error>)
    requires
        old(ledger).wf(),
        config.wf(),
        0 <= amount && old(ledger).spec_get(from) >= amount ==> {
            &&& amount * 10000 <= i128::MAX
            &&& (to != from ==> old(ledger).spec_get(to) + amount <= i128::MAX)
            &&& (config.mediator_address != from ==> old(ledger).spec_get(config.mediator_address)
                + amount <= i128::MAX)
            &&& (config.buyer_address != from ==> old(ledger).spec_get(config.buyer_address)
                + amount <= i128::MAX)
        },
    ensures
        final(ledger).wf(),
        r == Result::<(), Error>::Err(Error::NegativeAmount) <==> amount < 0,
        r == Result::<(), Error>::Err(Error::InsufficientBalance) <==> 0 <= amount && old(
            ledger,
        ).spec_get(from) < amount,
        r is Ok <==> 0 <= amount && old(ledger).spec_get(from) >= amount,
        r is Err ==> *final(ledger) == *old(ledger),
        r is Ok ==> forall|a: u64|
            final(ledger).spec_get(a) == old(ledger).spec_get(a) + fee_transfer_delta(
                *config,
                from,
                to,
                amount as int,
                a,
            ),
        r is Ok ==> final(ledger).sum() == old(ledger).sum(),
{
    if amount < 0 {
        return Err(Error::NegativeAmount);
    }
    let current_balance = ledger.get(from);
    if current_balance < amount {
        return Err(Error::InsufficientBalance);
    }
    let fee_calc = FeeCalculation::calculate(amount, config);
    proof {
        old(ledger).lemma_in_range(from);
        old(ledger).lemma_in_range(to);
        old(ledger).lemma_in_range(config.mediator_address);
        old(ledger).lemma_in_range(config.buyer_address);
    }
    let debit_result = ledger.debit(from, amount);
    proof {
        assert(debit_result is Ok);
    }
    ledger.credit(to, fee_calc.net_amount);
    if fee_calc.mediator_fee > 0 {
        ledger.credit(config.mediator_address, fee_calc.mediator_fee);
    }
    if fee_calc.buyer_fee > 0 {
        ledger.credit(config.buyer_address, fee_calc.buyer_fee);
    }
    Ok(())
}

/// The balance movement of a fee-splitting burn: the account burning loses
/// the gross amount, each fee recipient gains its share, and the net portion
/// is credited nowhere, leaving the ledger's total smaller by exactly the
/// net amount.
pub open spec fn fee_burn_delta(config: FeeConfig, from: u64, amount: int, a: u64) -> int {
    (if a == from {
        -amount
    } else {
        0
    }) + (if a == config.mediator_address {
        split_bp(amount, config.mediator_fee as int)
    } else {
        0
    }) + (if a == config.buyer_address {
        split_bp(amount, config.buyer_fee as int)
    } else {
        0
    })
}

/// Burn with the two-party fee split: as the fee-splitting transfer, except
/// that the net portion is destroyed instead of credited to a recipient.
/// The fee shares still reach their recipients.
pub fn process_fees_and_burn(
    ledger: &mut Ledger,
    config: &FeeConfig,
    from: u64,
    amount: i128,
) -> (r: Result<(), Error>)
    requires
        old(ledger).wf(),
        config.wf(),
        0 <= amount && old(ledger).spec_get(from) >= amount ==> {
            &&& amount * 10000 <= i128::MAX
            &&& (config.mediator_address != from ==> old(ledger).spec_get(config.mediator_address)
                + amount <= i128::MAX)
            &&& (config.buyer_address != from ==> old(ledger).spec_get(config.buyer_address)
                + amount <= i128::MAX)
        },
    ensures
        final(ledger).wf(),
        r == Result::<(), Error>::Err(Error::NegativeAmount) <==> amount < 0,
        r == Result::<(), Error>::Err(Error::InsufficientBalance) <==> 0 <= amount && old(
            ledger,
        ).spec_get(from) < amount,
        r is Ok <==> 0 <= amount && old(ledger).spec_get(from) >= amount,
        r is Err ==> *final(ledger) == *old(ledger),
        r is Ok ==> forall|a: u64|
            final(ledger).spec_get(a) == old(ledger).spec_get(a) + fee_burn_delta(
                *config,
                from,
                amount as int,
                a,
            ),
        r is Ok ==> final(ledger).sum() == old(ledger).sum() - (amount - split_bp(
            amount as int,
            config.mediator_fee as int,
        ) - split_bp(amount as int, config.buyer_fee as int)),
{
    if amount < 0 {
        return Err(Error::NegativeAmount);
    }
    let current_balance = ledger.get(from);
    if current_balance < amount {
        return Err(Error::InsufficientBalance);
    }
    let fee_calc = FeeCalculation::calculate(amount, config);
    proof {
        old(ledger).lemma_in_range(from);
        old(ledger).lemma_in_range(config.mediator_address);
        old(ledger).lemma_in_range(config.buyer_address);
    }
    let debit_result = ledger.debit(from, amount);
    proof {
        assert(debit_result is Ok);
    }
    if fee_calc.mediator_fee > 0 {
        ledger.credit(config.mediator_address, fee_calc.mediator_fee);
    }
    if fee_calc.buyer_fee > 0 {
        ledger.credit(config.buyer_address, fee_calc.buyer_fee);
    }
    Ok(())
}

/// Transfer with the two-party fee split on a delegated allowance: as the
/// fee-splitting transfer, but the amount is first spent from the
/// (owner, spender) allowance at ledger sequence number `now`. All
/// preconditions — allowance and balance alike — are checked before any
/// mutation, so on any failure neither the ledger nor the registry
/// changes. The spender's authorization is the embedding's duty.
pub fn process_fees_and_transfer_from(
    ledger: &mut Ledger,
    allowances: &mut AllowanceRegistry,
    config: &FeeConfig,
    spender: u64,
    from: u64,
    to: u64,
    amount: i128,
    now: u32,
) -> (r: Result<(), Error>)
    requires
        old(ledger).wf(),
        old(allowances).wf(),
        config.wf(),
        0 <= amount && old(ledger).spec_get(from) >= amount ==> {
            &&& amount * 10000 <= i128::MAX
            &&& (to != from ==> old(ledger).spec_get(to) + amount <= i128::MAX)
            &&& (config.mediator_address != from ==> old(ledger).spec_get(config.mediator_address)
                + amount <= i128::MAX)
            &&& (config.buyer_address != from ==> old(ledger).spec_get(config.buyer_address)
                + amount <= i128::MAX)
        },
    ensures
        final(ledger).wf(),
        final(allowances).wf(),
        r == Result::<(), Error>::Err(Error::NegativeAmount) <==> amount < 0,
        r == Result::<(), Error>::Err(Error::InsufficientAllowance) <==> 0 <= amount && old(
            allowances,
        ).spec_spendable(from, spender, now) < amount,
        r == Result::<(), Error>::Err(Error::InsufficientBalance) <==> 0 <= amount && old(
            allowances,
        ).spec_spendable(from, spender, now) >= amount && old(ledger).spec_get(from) < amount,
        r is Ok <==> 0 <= amount && old(allowances).spec_spendable(from, spender, now) >= amount
            && old(ledger).spec_get(from) >= amount,
        r is Err ==> *final(ledger) == *old(ledger) && *final(allowances) == *old(allowances),
        r is Ok ==> forall|a: u64|
            final(ledger).spec_get(a) == old(ledger).spec_get(a) + fee_transfer_delta(
                *config,
                from,
                to,
                amount as int,
                a,
            ),
        r is Ok ==> final(ledger).sum() == old(ledger).sum(),
        r is Ok && amount == 0 ==> *final(allowances) == *old(allowances),
        r is Ok && amount > 0 ==> (old(allowances).spec_raw(from, spender) matches Some(w)
            && final(allowances).spec_raw(from, spender) == Some(
            AllowanceValue {
                amount: (old(allowances).spec_spendable(from, spender, now) - amount) as i128,
                expiration_ledger: w.expiration_ledger,
            },
        )),
        r is Ok ==> forall|o: u64, s: u64|
            !(o == from && s == spender) ==> final(allowances).spec_raw(o, s) == old(
                allowances,
            ).spec_raw(o, s),
{
    if amount < 0 {
        return Err(Error::NegativeAmount);
    }
    proof {
        allowances.lemma_raw_nonneg(from, spender);
    }
    let spendable: i128 = match allowances.read(from, spender) {
        Some(v) => if v.expiration_ledger >= now {
            v.amount
        } else {
            0
        },
        None => 0,
    };
    if spendable < amount {
        return Err(Error::InsufficientAllowance);
    }
    let current_balance = ledger.get(from);
    if current_balance < amount {
        return Err(Error::InsufficientBalance);
    }
    let spend_result = allowances.spend(from, spender, amount, now);
    proof {
        assert(spend_result is Ok);
    }
    let transfer_result = process_fees_and_transfer(ledger, config, from, to, amount);
    proof {
        assert(transfer_result is Ok);
    }
    Ok(())
}

/// Burn with the two-party fee split on a delegated allowance: as the
/// delegated transfer, except that the net portion is destroyed. On any
/// failure neither the ledger nor the registry changes.
pub fn process_fees_and_burn_from(
    ledger: &mut Ledger,
    allowances: &mut AllowanceRegistry,
    config: &FeeConfig,
    spender: u64,
    from: u64,
    amount: i128,
    now: u32,
) -> (r: Result<(), Error>)
    requires
        old(ledger).wf(),
        old(allowances).wf(),
        config.wf(),
        0 <= amount && old(ledger).spec_get(from) >= amount ==> {
            &&& amount * 10000 <= i128::MAX
            &&& (config.mediator_address != from ==> old(ledger).spec_get(config.mediator_address)
                + amount <= i128::MAX)
            &&& (config.buyer_address != from ==> old(ledger).spec_get(config.buyer_address)
                + amount <= i128::MAX)
        },
    ensures
        final(ledger).wf(),
        final(allowances).wf(),
        r == Result::<(), Error>::Err(Error::NegativeAmount) <==> amount < 0,
        r == Result::<(), Error>::Err(Error::InsufficientAllowance) <==> 0 <= amount && old(
            allowances,
        ).spec_spendable(from, spender, now) < amount,
        r == Result::<(), Error>::Err(Error::InsufficientBalance) <==> 0 <= amount && old(
            allowances,
        ).spec_spendable(from, spender, now) >= amount && old(ledger).spec_get(from) < amount,
        r is Ok <==> 0 <= amount && old(allowances).spec_spendable(from, spender, now) >= amount
            && old(ledger).spec_get(from) >= amount,
        r is Err ==> *final(ledger) == *old(ledger) && *final(allowances) == *old(allowances),
        r is Ok ==> forall|a: u64|
            final(ledger).spec_get(a) == old(ledger).spec_get(a) + fee_burn_delta(
                *config,
                from,
                amount as int,
                a,
            ),
        r is Ok ==> final(ledger).sum() == old(ledger).sum() - (amount - split_bp(
            amount as int,
            config.mediator_fee as int,
        ) - split_bp(amount as int, config.buyer_fee as int)),
        r is Ok && amount == 0 ==> *final(allowances) == *old(allowances),
        r is Ok && amount > 0 ==> (old(allowances).spec_raw(from, spender) matches Some(w)
            && final(allowances).spec_raw(from, spender) == Some(
            AllowanceValue {
                amount: (old(allowances).spec_spendable(from, spender, now) - amount) as i128,
                expiration_ledger: w.expiration_ledger,
            },
        )),
        r is Ok ==> forall|o: u64, s: u64|
            !(o == from && s == spender) ==> final(allowances).spec_raw(o, s) == old(
                allowances,
            ).spec_raw(o, s),
{
    if amount < 0 {
        return Err(Error::NegativeAmount);
    }
    proof {
        allowances.lemma_raw_nonneg(from, spender);
    }
    let spendable: i128 = match allowances.read(from, spender) {
        Some(v) => if v.expiration_ledger >= now {
            v.amount
        } else {
            0
        },
        None => 0,
    };
    if spendable < amount {
        return Err(Error::InsufficientAllowance);
    }
    let current_balance = ledger.get(from);
    if current_balance < amount {
        return Err(Error::InsufficientBalance);
    }
    let spend_result = allowances.spend(from, spender, amount, now);
    proof {
        assert(spend_result is Ok);
    }
    let burn_result = process_fees_and_burn(ledger, config, from, amount);
    proof {
        assert(burn_result is Ok);
    }
    Ok(())
}

} // verus!
