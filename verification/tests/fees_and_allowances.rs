use contango_token::contract::{ContangoToken, Distribution};
use contango_token::errors::Error;
use contango_token::fees::{
    process_fees_and_burn, process_fees_and_burn_from, process_fees_and_transfer,
    process_fees_and_transfer_from, split, FeeCalculation, FeeConfig,
};
use contango_token::ledger::Ledger;
use contango_token::series::SeriesMetadata;
use contango_token::storage_types::{AllowanceRegistry, AllowanceValue};

const MEDIATOR: u64 = 10;
const BUYER_FEE_RECIPIENT: u64 = 11;
const ALICE: u64 = 20;
const BOB: u64 = 21;

fn two_party_config() -> FeeConfig {
    FeeConfig {
        mediator_address: MEDIATOR,
        buyer_address: BUYER_FEE_RECIPIENT,
        mediator_fee: 100,
        buyer_fee: 50,
    }
}

#[test]
fn test_split_exact_values() {
    assert_eq!(split(1000, 100), 10);
    assert_eq!(split(600, 100), 6);
    assert_eq!(split(600, 50), 3);
    assert_eq!(split(0, 10000), 0);
    assert_eq!(split(1, 0), 0);
    // Truncation toward zero, never rounding up.
    assert_eq!(split(999, 100), 9);
    assert_eq!(split(1, 9999), 0);
    assert_eq!(split(100, 10000), 100);
}

#[test]
fn test_fee_calculation_from_gross_amount() {
    let config = two_party_config();
    let calc = FeeCalculation::calculate(600, &config);
    assert_eq!(calc.mediator_fee, 6);
    assert_eq!(calc.buyer_fee, 3);
    assert_eq!(calc.net_amount, 591);

    // Both fees are taken from the gross amount, not from a remainder.
    let calc2 = FeeCalculation::calculate(10000, &config);
    assert_eq!(calc2.mediator_fee, 100);
    assert_eq!(calc2.buyer_fee, 50);
    assert_eq!(calc2.net_amount, 9850);
}

#[test]
fn test_two_party_transfer_scenario() {
    // Mediator fee 100 bp, buyer fee 50 bp; transferring 600 from A to B
    // credits B 591, the mediator 6 and the buyer-fee recipient 3, and
    // debits A the full 600.
    let config = two_party_config();
    let mut ledger = Ledger::new();
    ledger.credit(ALICE, 600);

    process_fees_and_transfer(&mut ledger, &config, ALICE, BOB, 600).unwrap();

    assert_eq!(ledger.get(ALICE), 0);
    assert_eq!(ledger.get(BOB), 591);
    assert_eq!(ledger.get(MEDIATOR), 6);
    assert_eq!(ledger.get(BUYER_FEE_RECIPIENT), 3);
}

#[test]
fn test_two_party_transfer_insufficient_balance() {
    let config = two_party_config();
    let mut ledger = Ledger::new();
    ledger.credit(ALICE, 599);

    let result = process_fees_and_transfer(&mut ledger, &config, ALICE, BOB, 600);
    assert_eq!(result, Err(Error::InsufficientBalance));
    // Nothing moved.
    assert_eq!(ledger.get(ALICE), 599);
    assert_eq!(ledger.get(BOB), 0);
}

#[test]
fn test_two_party_transfer_negative_amount() {
    let config = two_party_config();
    let mut ledger = Ledger::new();
    ledger.credit(ALICE, 600);

    let result = process_fees_and_transfer(&mut ledger, &config, ALICE, BOB, -1);
    assert_eq!(result, Err(Error::NegativeAmount));
    assert_eq!(ledger.get(ALICE), 600);
}

#[test]
fn test_two_party_burn_destroys_net_amount() {
    let config = two_party_config();
    let mut ledger = Ledger::new();
    ledger.credit(ALICE, 1000);

    process_fees_and_burn(&mut ledger, &config, ALICE, 600).unwrap();

    // The fees still reach their recipients; the net amount is gone.
    assert_eq!(ledger.get(ALICE), 400);
    assert_eq!(ledger.get(MEDIATOR), 6);
    assert_eq!(ledger.get(BUYER_FEE_RECIPIENT), 3);
}

#[test]
fn test_zero_amount_fee_operations() {
    let config = two_party_config();
    let mut ledger = Ledger::new();

    // A zero transfer succeeds even with no balance at all.
    process_fees_and_transfer(&mut ledger, &config, ALICE, BOB, 0).unwrap();
    process_fees_and_burn(&mut ledger, &config, ALICE, 0).unwrap();
    assert_eq!(ledger.get(ALICE), 0);
    assert_eq!(ledger.get(BOB), 0);
    assert_eq!(ledger.get(MEDIATOR), 0);
}

#[test]
fn test_delegated_transfer_spends_allowance() {
    let config = two_party_config();
    let mut ledger = Ledger::new();
    let mut allowances = AllowanceRegistry::new();
    let spender: u64 = 30;
    ledger.credit(ALICE, 1000);
    allowances.approve(ALICE, spender, 700, 100).unwrap();

    process_fees_and_transfer_from(
        &mut ledger,
        &mut allowances,
        &config,
        spender,
        ALICE,
        BOB,
        600,
        50,
    )
    .unwrap();

    assert_eq!(ledger.get(ALICE), 400);
    assert_eq!(ledger.get(BOB), 591);
    assert_eq!(ledger.get(MEDIATOR), 6);
    assert_eq!(ledger.get(BUYER_FEE_RECIPIENT), 3);
    assert_eq!(allowances.read(ALICE, spender).unwrap().amount, 100);
}

#[test]
fn test_delegated_transfer_insufficient_allowance() {
    let config = two_party_config();
    let mut ledger = Ledger::new();
    let mut allowances = AllowanceRegistry::new();
    let spender: u64 = 30;
    ledger.credit(ALICE, 1000);
    allowances.approve(ALICE, spender, 599, 100).unwrap();

    let result = process_fees_and_transfer_from(
        &mut ledger,
        &mut allowances,
        &config,
        spender,
        ALICE,
        BOB,
        600,
        50,
    );
    assert_eq!(result, Err(Error::InsufficientAllowance));
    // Neither the ledger nor the allowance changed.
    assert_eq!(ledger.get(ALICE), 1000);
    assert_eq!(allowances.read(ALICE, spender).unwrap().amount, 599);

    // An expired allowance authorizes nothing either.
    allowances.approve(ALICE, spender, 700, 100).unwrap();
    let result = process_fees_and_transfer_from(
        &mut ledger,
        &mut allowances,
        &config,
        spender,
        ALICE,
        BOB,
        600,
        101,
    );
    assert_eq!(result, Err(Error::InsufficientAllowance));
}

#[test]
fn test_delegated_transfer_insufficient_balance_keeps_allowance() {
    let config = two_party_config();
    let mut ledger = Ledger::new();
    let mut allowances = AllowanceRegistry::new();
    let spender: u64 = 30;
    ledger.credit(ALICE, 100);
    allowances.approve(ALICE, spender, 700, 100).unwrap();

    let result = process_fees_and_transfer_from(
        &mut ledger,
        &mut allowances,
        &config,
        spender,
        ALICE,
        BOB,
        600,
        50,
    );
    assert_eq!(result, Err(Error::InsufficientBalance));
    // The allowance was not spent on the failed attempt.
    assert_eq!(allowances.read(ALICE, spender).unwrap().amount, 700);
    assert_eq!(ledger.get(ALICE), 100);
}

#[test]
fn test_delegated_burn_spends_allowance() {
    let config = two_party_config();
    let mut ledger = Ledger::new();
    let mut allowances = AllowanceRegistry::new();
    let spender: u64 = 30;
    ledger.credit(ALICE, 1000);
    allowances.approve(ALICE, spender, 600, 100).unwrap();

    process_fees_and_burn_from(
        &mut ledger,
        &mut allowances,
        &config,
        spender,
        ALICE,
        600,
        50,
    )
    .unwrap();

    assert_eq!(ledger.get(ALICE), 400);
    assert_eq!(ledger.get(MEDIATOR), 6);
    assert_eq!(ledger.get(BUYER_FEE_RECIPIENT), 3);
    // Spent down to zero: the allowance is logically absent.
    assert_eq!(allowances.read(ALICE, spender), None);
}

#[test]
fn test_allowance_approve_and_read() {
    let mut registry = AllowanceRegistry::new();

    assert_eq!(registry.read(ALICE, BOB), None);

    registry.approve(ALICE, BOB, 500, 100).unwrap();
    let value = registry.read(ALICE, BOB).unwrap();
    assert_eq!(value.amount, 500);
    assert_eq!(value.expiration_ledger, 100);

    // Approval overwrites unconditionally: no addition semantics.
    registry.approve(ALICE, BOB, 200, 120).unwrap();
    let value = registry.read(ALICE, BOB).unwrap();
    assert_eq!(value.amount, 200);
    assert_eq!(value.expiration_ledger, 120);
}

#[test]
fn test_allowance_zero_is_absent() {
    let mut registry = AllowanceRegistry::new();

    registry.approve(ALICE, BOB, 500, 100).unwrap();
    registry.approve(ALICE, BOB, 0, 100).unwrap();
    assert_eq!(registry.read(ALICE, BOB), None);
}

#[test]
fn test_allowance_negative_amount_rejected() {
    let mut registry = AllowanceRegistry::new();

    let result = registry.approve(ALICE, BOB, -5, 100);
    assert_eq!(result, Err(Error::NegativeAmount));
}

#[test]
fn test_allowance_spend_decrements() {
    let mut registry = AllowanceRegistry::new();

    registry.approve(ALICE, BOB, 500, 100).unwrap();
    registry.spend(ALICE, BOB, 200, 50).unwrap();
    let value = registry.read(ALICE, BOB).unwrap();
    assert_eq!(value.amount, 300);

    // Spending down to zero makes the record logically absent.
    registry.spend(ALICE, BOB, 300, 50).unwrap();
    assert_eq!(registry.read(ALICE, BOB), None);
}

#[test]
fn test_allowance_spend_insufficient() {
    let mut registry = AllowanceRegistry::new();

    registry.approve(ALICE, BOB, 100, 100).unwrap();
    let result = registry.spend(ALICE, BOB, 101, 50);
    assert_eq!(result, Err(Error::InsufficientAllowance));
    // The failed spend changed nothing.
    assert_eq!(registry.read(ALICE, BOB).unwrap().amount, 100);

    let result = registry.spend(ALICE, BOB, 1, 50);
    assert_eq!(result, Ok(()));
}

#[test]
fn test_allowance_expired_spend_fails_but_read_returns_record() {
    let mut registry = AllowanceRegistry::new();

    registry.approve(ALICE, BOB, 500, 100).unwrap();

    // Reading an expired-but-present record still returns it as-is.
    let value = registry.read(ALICE, BOB).unwrap();
    assert_eq!(
        value,
        AllowanceValue { amount: 500, expiration_ledger: 100 }
    );

    // Spending against it past its expiration is refused.
    let result = registry.spend(ALICE, BOB, 1, 101);
    assert_eq!(result, Err(Error::InsufficientAllowance));

    // At the expiration ledger itself the allowance still spends.
    registry.spend(ALICE, BOB, 1, 100).unwrap();
    assert_eq!(registry.read(ALICE, BOB).unwrap().amount, 499);
}

fn residue_metadata() -> SeriesMetadata {
    SeriesMetadata {
        id: "CTGSoy-BRL-2025Q1".to_string(),
        asset_type: "soy".to_string(),
        currency: "BRL".to_string(),
        delivery_date: 1735689600,
        producer: ALICE,
        storage_facility: "AGRARIA".to_string(),
        buyer: None,
        location: "Paraná".to_string(),
        quantity_kg: 100,
        contract_hash: "0x1234...".to_string(),
        is_future: false,
        guarantee_agent: None,
    }
}

#[test]
fn test_mint_spot_truncation_residue() {
    // Each share is floored independently, while the total supply grows by
    // the full amount: minting 100 at (3333, 3333, 3334) credits 33 + 33 +
    // 33 and leaves a residue of 1 attributed to no account.
    let mut token = ContangoToken::new();
    token
        .initialize("Contango Token".to_string(), "CTG".to_string(), 1, 2)
        .unwrap();

    let distribution = Distribution {
        producer_address: ALICE,
        storage_address: 2,
        producer_percent: 3333,
        platform_percent: 3333,
        storage_percent: 3334,
    };

    token
        .mint_spot(
            "CTGSoy-BRL-2025Q1".to_string(),
            residue_metadata(),
            distribution,
            100,
        )
        .unwrap();

    assert_eq!(token.balance_of(ALICE), 33);
    assert_eq!(token.balance_of(1), 33);
    assert_eq!(token.balance_of(2), 33);
    assert_eq!(token.total_supply(), 100);
}

#[test]
fn test_negative_amounts_rejected_at_boundary() {
    let mut token = ContangoToken::new();
    token
        .initialize("Contango Token".to_string(), "CTG".to_string(), 1, 2)
        .unwrap();

    assert_eq!(
        token.transfer(ALICE, BOB, -1, false),
        Err(Error::NegativeAmount)
    );
    assert_eq!(
        token.burn(ALICE, "CTGSoy-BRL-2025Q1".to_string(), -1),
        Err(Error::NegativeAmount)
    );
    let distribution = Distribution {
        producer_address: ALICE,
        storage_address: 2,
        producer_percent: 9900,
        platform_percent: 50,
        storage_percent: 50,
    };
    assert_eq!(
        token.mint_spot(
            "CTGSoy-BRL-2025Q1".to_string(),
            residue_metadata(),
            distribution,
            -1
        ),
        Err(Error::NegativeAmount)
    );
    let mut future_metadata = residue_metadata();
    future_metadata.is_future = true;
    assert_eq!(
        token.mint_future(
            "CTGSoy-USD-2025Q4".to_string(),
            future_metadata,
            BOB,
            3,
            -1
        ),
        Err(Error::NegativeAmount)
    );
    assert_eq!(
        token.swap(
            ALICE,
            "CTGSoy-BRL-2025Q1".to_string(),
            "CTGSoy-BRL-2025Q1".to_string(),
            -1,
            10000
        ),
        Err(Error::NegativeAmount)
    );
    assert_eq!(
        token.swap(
            ALICE,
            "CTGSoy-BRL-2025Q1".to_string(),
            "CTGSoy-BRL-2025Q1".to_string(),
            1,
            -1
        ),
        Err(Error::NegativeAmount)
    );
}

#[test]
fn test_swap_series_not_found() {
    let mut token = ContangoToken::new();
    token
        .initialize("Contango Token".to_string(), "CTG".to_string(), 1, 2)
        .unwrap();

    let result = token.swap(
        ALICE,
        "CTGSoy-BRL-2025Q1".to_string(),
        "CTGSoy-USD-2025Q1".to_string(),
        0,
        10000,
    );
    assert_eq!(result, Err(Error::SeriesNotFound));
}

#[test]
fn test_confirm_delivery_series_not_found() {
    let mut token = ContangoToken::new();
    token
        .initialize("Contango Token".to_string(), "CTG".to_string(), 1, 2)
        .unwrap();

    let result = token.confirm_delivery("CTGSoy-USD-2025Q4".to_string(), 2);
    assert_eq!(result, Err(Error::SeriesNotFound));
}

#[test]
fn test_conservation_across_operations() {
    // With shares that divide evenly, the total supply equals the sum of
    // all available and locked balances after every operation.
    let admin: u64 = 1;
    let storage: u64 = 2;
    let buyer: u64 = 4;
    let agent: u64 = 5;
    let mut token = ContangoToken::new();
    token
        .initialize("Contango Token".to_string(), "CTG".to_string(), admin, storage)
        .unwrap();
    let accounts = [admin, storage, ALICE, BOB, buyer, agent];
    let held = |t: &ContangoToken| -> i128 {
        accounts
            .iter()
            .map(|a| t.balance_of(*a) + t.locked_balance_of(*a))
            .sum()
    };

    let distribution = Distribution {
        producer_address: ALICE,
        storage_address: storage,
        producer_percent: 9900,
        platform_percent: 50,
        storage_percent: 50,
    };
    token
        .mint_spot(
            "CTGSoy-BRL-2025Q1".to_string(),
            residue_metadata(),
            distribution,
            1_000_000,
        )
        .unwrap();
    assert_eq!(token.total_supply(), held(&token));

    token.transfer(ALICE, BOB, 123_456, false).unwrap();
    assert_eq!(token.total_supply(), held(&token));

    token.burn(BOB, "CTGSoy-BRL-2025Q1".to_string(), 23_456).unwrap();
    assert_eq!(token.total_supply(), held(&token));

    let mut future_metadata = residue_metadata();
    future_metadata.id = "CTGSoy-USD-2025Q4".to_string();
    future_metadata.is_future = true;
    token
        .mint_future(
            "CTGSoy-USD-2025Q4".to_string(),
            future_metadata,
            buyer,
            agent,
            500_000,
        )
        .unwrap();
    assert_eq!(token.total_supply(), held(&token));

    token
        .confirm_delivery("CTGSoy-USD-2025Q4".to_string(), storage)
        .unwrap();
    assert_eq!(token.total_supply(), held(&token));

    // And no balance anywhere has gone negative.
    for a in accounts {
        assert!(token.balance_of(a) >= 0);
        assert!(token.locked_balance_of(a) >= 0);
    }
}

#[test]
fn test_direct_ledger_operations() {
    let mut ledger = Ledger::new();
    assert_eq!(ledger.get(ALICE), 0);

    ledger.credit(ALICE, 100);
    assert_eq!(ledger.get(ALICE), 100);

    ledger.debit(ALICE, 40).unwrap();
    assert_eq!(ledger.get(ALICE), 60);

    assert_eq!(ledger.debit(ALICE, 61), Err(Error::InsufficientBalance));
    assert_eq!(ledger.get(ALICE), 60);

    // A zero debit of an account never written succeeds and writes nothing.
    ledger.debit(BOB, 0).unwrap();
    assert_eq!(ledger.get(BOB), 0);
}
