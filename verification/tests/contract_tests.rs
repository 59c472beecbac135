use contango_token::contract::{ContangoToken, Distribution};
use contango_token::errors::Error;
use contango_token::series::SeriesMetadata;

const ADMIN: u64 = 1;
const STORAGE: u64 = 2;
const PRODUCER: u64 = 3;
const BUYER: u64 = 4;
const GUARANTEE_AGENT: u64 = 5;
const THIRD_PARTY: u64 = 6;

fn setup_token() -> ContangoToken {
    let mut token = ContangoToken::new();
    token
        .initialize(
            "Contango Token".to_string(),
            "CTG".to_string(),
            ADMIN,
            STORAGE,
        )
        .unwrap();
    token
}

fn create_spot_metadata() -> SeriesMetadata {
    SeriesMetadata {
        id: "CTGSoy-BRL-2025Q1".to_string(),
        asset_type: "soy".to_string(),
        currency: "BRL".to_string(),
        delivery_date: 1735689600,
        producer: PRODUCER,
        storage_facility: "AGRARIA".to_string(),
        buyer: None,
        location: "Paraná".to_string(),
        quantity_kg: 1_000_000,
        contract_hash: "0x1234...".to_string(),
        is_future: false,
        guarantee_agent: None,
    }
}

fn create_future_metadata() -> SeriesMetadata {
    SeriesMetadata {
        id: "CTGSoy-USD-2025Q4".to_string(),
        asset_type: "soy".to_string(),
        currency: "USD".to_string(),
        delivery_date: 1735689600,
        producer: PRODUCER,
        storage_facility: "SLC".to_string(),
        buyer: Some(BUYER),
        location: "MT".to_string(),
        quantity_kg: 500_000,
        contract_hash: "0x5678...".to_string(),
        is_future: true,
        guarantee_agent: Some(GUARANTEE_AGENT),
    }
}

fn create_standard_distribution() -> Distribution {
    Distribution {
        producer_address: PRODUCER,
        storage_address: STORAGE,
        producer_percent: 9900,
        platform_percent: 50,
        storage_percent: 50,
    }
}

fn mint_spot_tokens(token: &mut ContangoToken, amount: i128) {
    token
        .mint_spot(
            "CTGSoy-BRL-2025Q1".to_string(),
            create_spot_metadata(),
            create_standard_distribution(),
            amount,
        )
        .unwrap();
}

#[test]
fn test_initialize() {
    let token = setup_token();

    let config = token.get_config();
    assert_eq!(config.name, "Contango Token");
    assert_eq!(config.symbol, "CTG");
}

#[test]
fn test_mint_spot_distribution() {
    let mut token = setup_token();

    let metadata = create_spot_metadata();
    let distribution = create_standard_distribution();

    token
        .mint_spot(
            "CTGSoy-BRL-2025Q1".to_string(),
            metadata,
            distribution,
            1000000,
        )
        .unwrap();

    assert_eq!(token.balance_of(PRODUCER), 990000); // 99%
    assert_eq!(token.balance_of(ADMIN), 5000); // 0.5%
    assert_eq!(token.balance_of(STORAGE), 5000); // 0.5%
    assert_eq!(token.total_supply(), 1000000);
}

#[test]
fn test_future_contract_flow() {
    let mut token = setup_token();

    let metadata = create_future_metadata();

    token
        .mint_future(
            "CTGSoy-USD-2025Q4".to_string(),
            metadata,
            BUYER,
            GUARANTEE_AGENT,
            500000,
        )
        .unwrap();

    assert_eq!(token.locked_balance_of(BUYER), 495000); // 99% locked
    assert_eq!(token.balance_of(BUYER), 0); // Not available yet
    assert_eq!(token.balance_of(ADMIN), 2500); // 0.5%
    assert_eq!(token.balance_of(GUARANTEE_AGENT), 2500); // 0.5%

    token
        .confirm_delivery("CTGSoy-USD-2025Q4".to_string(), STORAGE)
        .unwrap();

    assert_eq!(token.locked_balance_of(BUYER), 0); // Unlocked
    assert_eq!(token.balance_of(BUYER), 495000); // Now available
}

#[test]
fn test_initialization_parameters() {
    let token = setup_token();

    let config = token.get_config();
    assert_eq!(config.name, "Contango Token");
    assert_eq!(config.symbol, "CTG");
    assert_eq!(config.admin, ADMIN);
    assert_eq!(config.storage_address, STORAGE);
    assert_eq!(config.transfer_fee_percent, 0);
    assert_eq!(config.burn_fee_percent, 50);
    assert_eq!(config.platform_fee_percent, 50);
    assert_eq!(config.storage_fee_percent, 50);
}

#[test]
fn test_cannot_reinitialize() {
    let mut token = setup_token();

    let result = token.initialize(
        "Another Token".to_string(),
        "ATK".to_string(),
        ADMIN,
        STORAGE,
    );
    assert_eq!(result, Err(Error::AlreadyInitialized));
}

#[test]
fn test_spot_minting_distribution() {
    let mut token = setup_token();

    let metadata = create_spot_metadata();
    let distribution = Distribution {
        producer_address: PRODUCER,
        storage_address: STORAGE,
        producer_percent: 9900, // 99%
        platform_percent: 50,   // 0.5%
        storage_percent: 50,    // 0.5%
    };

    token
        .mint_spot(
            "CTGSoy-BRL-2025Q1".to_string(),
            metadata,
            distribution,
            1_000_000,
        )
        .unwrap();

    assert_eq!(token.balance_of(PRODUCER), 990_000);
    assert_eq!(token.balance_of(ADMIN), 5_000);
    assert_eq!(token.balance_of(STORAGE), 5_000);
    assert_eq!(token.total_supply(), 1_000_000);
}

#[test]
fn test_invalid_distribution_percentages() {
    let mut token = setup_token();

    let metadata = create_spot_metadata();
    let distribution = Distribution {
        producer_address: PRODUCER,
        storage_address: STORAGE,
        producer_percent: 9800, // 98% - doesn't sum to 100%
        platform_percent: 50,
        storage_percent: 50,
    };

    let result = token.mint_spot(
        "CTGSoy-BRL-2025Q1".to_string(),
        metadata,
        distribution,
        1_000_000,
    );
    assert_eq!(result, Err(Error::InvalidDistribution));
}

#[test]
fn test_future_contract_complete_flow() {
    let mut token = setup_token();

    let metadata = create_future_metadata();

    // Step 1: Mint future tokens
    token
        .mint_future(
            "CTGSoy-USD-2025Q4".to_string(),
            metadata,
            BUYER,
            GUARANTEE_AGENT,
            500_000,
        )
        .unwrap();

    // Verify locked tokens
    assert_eq!(token.locked_balance_of(BUYER), 495_000); // 99%
    assert_eq!(token.balance_of(BUYER), 0);
    assert_eq!(token.balance_of(ADMIN), 2_500); // 0.5%
    assert_eq!(token.balance_of(GUARANTEE_AGENT), 2_500); // 0.5%

    // Step 2: Confirm delivery
    token
        .confirm_delivery("CTGSoy-USD-2025Q4".to_string(), STORAGE)
        .unwrap();

    // Verify unlocked tokens
    assert_eq!(token.locked_balance_of(BUYER), 0);
    assert_eq!(token.balance_of(BUYER), 495_000);
}

#[test]
fn test_cannot_confirm_delivery_spot() {
    let mut token = setup_token();

    token
        .mint_spot(
            "CTGSoy-BRL-2025Q1".to_string(),
            create_spot_metadata(),
            create_standard_distribution(),
            1_000_000,
        )
        .unwrap();

    let result = token.confirm_delivery("CTGSoy-BRL-2025Q1".to_string(), STORAGE);
    assert_eq!(result, Err(Error::NotAFutureContract));
}

#[test]
fn test_transfer_without_fees() {
    let mut token = setup_token();

    // Setup initial balance
    mint_spot_tokens(&mut token, 1_000_000);

    let initial_balance = token.balance_of(PRODUCER);

    // Transfer without fee
    token
        .transfer(PRODUCER, THIRD_PARTY, 100_000, false)
        .unwrap();

    assert_eq!(token.balance_of(PRODUCER), initial_balance - 100_000);
    assert_eq!(token.balance_of(THIRD_PARTY), 100_000);
    assert_eq!(token.balance_of(ADMIN), 5_000); // Unchanged
}

#[test]
fn test_transfer_with_fees() {
    let mut token = setup_token();

    // Set transfer fee to 1%
    token.set_transfer_fee(100).unwrap();

    // Setup initial balance
    mint_spot_tokens(&mut token, 1_000_000);

    let initial_admin = token.balance_of(ADMIN);

    // Transfer with fee
    token
        .transfer(PRODUCER, THIRD_PARTY, 100_000, true)
        .unwrap();

    assert_eq!(token.balance_of(PRODUCER), 890_000); // 990k - 100k
    assert_eq!(token.balance_of(THIRD_PARTY), 99_000); // 100k - 1%
    assert_eq!(token.balance_of(ADMIN), initial_admin + 1_000); // Fee collected
}

#[test]
fn test_burn_with_fee_distribution() {
    let mut token = setup_token();

    mint_spot_tokens(&mut token, 1_000_000);

    let initial_supply = token.total_supply();
    let initial_admin = token.balance_of(ADMIN);
    let initial_storage = token.balance_of(STORAGE);

    // Burn 100k tokens
    token
        .burn(PRODUCER, "CTGSoy-BRL-2025Q1".to_string(), 100_000)
        .unwrap();

    // Verify burn fee distribution (0.5% = 500 tokens)
    assert_eq!(token.balance_of(PRODUCER), 890_000); // 990k - 100k
    assert_eq!(token.balance_of(ADMIN), initial_admin + 250); // Half of fee
    assert_eq!(token.balance_of(STORAGE), initial_storage + 250); // Half of fee
    assert_eq!(token.total_supply(), initial_supply - 99_500); // Burned amount minus fees
}

#[test]
fn test_insufficient_balance_transfer() {
    let mut token = setup_token();

    let result = token.transfer(PRODUCER, THIRD_PARTY, 100_000, false);
    assert_eq!(result, Err(Error::InsufficientBalance));
}

#[test]
fn test_series_metadata_storage() {
    let mut token = setup_token();

    let metadata = create_spot_metadata();
    let distribution = create_standard_distribution();
    let series_id = "CTGSoy-BRL-2025Q1".to_string();

    token
        .mint_spot(series_id.clone(), metadata.clone(), distribution, 1_000_000)
        .unwrap();

    let retrieved = token.get_series(&series_id).unwrap();
    assert_eq!(retrieved.asset_type, metadata.asset_type);
    assert_eq!(retrieved.currency, metadata.currency);
    assert_eq!(retrieved.delivery_date, metadata.delivery_date);
    assert_eq!(retrieved.producer, metadata.producer);
}

#[test]
fn test_swap_same_asset_type() {
    let mut token = setup_token();

    // Create two series of same asset type but different currencies
    let metadata_brl = create_spot_metadata();
    let mut metadata_usd = metadata_brl.clone();
    metadata_usd.currency = "USD".to_string();

    let distribution = create_standard_distribution();

    // Mint both series
    token
        .mint_spot(
            "CTGSoy-BRL-2025Q1".to_string(),
            metadata_brl,
            distribution,
            1_000_000,
        )
        .unwrap();

    token
        .mint_spot(
            "CTGSoy-USD-2025Q1".to_string(),
            metadata_usd,
            distribution,
            0, // Just create the series
        )
        .unwrap();

    // Perform swap (oracle price 5500 = 0.55 BRL/USD)
    token
        .swap(
            PRODUCER,
            "CTGSoy-BRL-2025Q1".to_string(),
            "CTGSoy-USD-2025Q1".to_string(),
            100_000,
            5500,
        )
        .unwrap();

    // Verify swap executed
    assert_eq!(token.balance_of(PRODUCER), 890_000 + 55_000);
}

#[test]
fn test_maximum_fee_limit() {
    let mut token = setup_token();

    let result = token.set_transfer_fee(600); // 6% - too high
    assert_eq!(result, Err(Error::FeeTooHigh));
}

#[test]
fn test_complex_multiparty_scenario() {
    let mut token = setup_token();

    // Step 1: Producer tokenizes 1M kg of soy
    mint_spot_tokens(&mut token, 1_000_000);
    assert_eq!(token.balance_of(PRODUCER), 990_000);

    // Step 2: Producer sells 200k tokens to buyer
    token.transfer(PRODUCER, BUYER, 200_000, false).unwrap();
    assert_eq!(token.balance_of(PRODUCER), 790_000);
    assert_eq!(token.balance_of(BUYER), 200_000);

    // Step 3: Buyer burns 50k tokens for physical delivery
    token
        .burn(BUYER, "CTGSoy-BRL-2025Q1".to_string(), 50_000)
        .unwrap();
    assert_eq!(token.balance_of(BUYER), 150_000);

    // Step 4: Verify fee accumulation
    assert_eq!(token.balance_of(ADMIN), 5_000 + 125); // Initial + burn fee
    assert_eq!(token.balance_of(STORAGE), 5_000 + 125); // Initial + burn fee

    // Step 5: Verify total supply reduced
    assert_eq!(token.total_supply(), 950_250); // 1M - 50k + 250 fees
}

#[test]
fn test_future_contract_no_locked_tokens() {
    let mut token = setup_token();

    let metadata = create_future_metadata();

    // Mint future tokens
    token
        .mint_future(
            "CTGSoy-USD-2025Q4".to_string(),
            metadata,
            BUYER,
            GUARANTEE_AGENT,
            500_000,
        )
        .unwrap();

    // Confirm delivery twice should fail
    token
        .confirm_delivery("CTGSoy-USD-2025Q4".to_string(), STORAGE)
        .unwrap();

    let result = token.confirm_delivery("CTGSoy-USD-2025Q4".to_string(), STORAGE);
    assert_eq!(result, Err(Error::NoLockedTokens));
}

#[test]
fn test_swap_incompatible_assets() {
    let mut token = setup_token();

    // Create soy series
    let metadata_soy = create_spot_metadata();
    let distribution = create_standard_distribution();

    token
        .mint_spot(
            "CTGSoy-BRL-2025Q1".to_string(),
            metadata_soy.clone(),
            distribution,
            1_000_000,
        )
        .unwrap();

    // Create corn series
    let mut metadata_corn = metadata_soy;
    metadata_corn.asset_type = "corn".to_string();

    token
        .mint_spot(
            "CTGCorn-BRL-2025Q1".to_string(),
            metadata_corn,
            distribution,
            0,
        )
        .unwrap();

    // Try to swap between different asset types
    let result = token.swap(
        PRODUCER,
        "CTGSoy-BRL-2025Q1".to_string(),
        "CTGCorn-BRL-2025Q1".to_string(),
        100_000,
        10000,
    );
    assert_eq!(result, Err(Error::IncompatibleAssetTypes));
}

#[test]
fn test_zero_amount_operations() {
    let mut token = setup_token();

    mint_spot_tokens(&mut token, 1_000_000);

    // Zero transfer should work
    token.transfer(PRODUCER, BUYER, 0, false).unwrap();

    // Zero burn should work
    token
        .burn(PRODUCER, "CTGSoy-BRL-2025Q1".to_string(), 0)
        .unwrap();

    // Balances should remain unchanged
    assert_eq!(token.balance_of(PRODUCER), 990_000);
    assert_eq!(token.total_supply(), 1_000_000);
}

#[test]
fn test_future_mint_requires_future_flag() {
    let mut token = setup_token();

    let mut metadata = create_spot_metadata();
    metadata.is_future = false; // This should cause rejection

    let result = token.mint_future(
        "CTGSoy-USD-2025Q4".to_string(),
        metadata,
        BUYER,
        GUARANTEE_AGENT,
        500_000,
    );
    assert_eq!(result, Err(Error::NotAFutureContract));
}

#[test]
fn test_comprehensive_balance_tracking() {
    let mut token = setup_token();

    // Create multiple series
    let metadata1 = create_spot_metadata();
    let mut metadata2 = metadata1.clone();
    metadata2.id = "CTGSoy-BRL-2025Q2".to_string();

    let distribution = create_standard_distribution();

    // Mint from multiple series
    token
        .mint_spot(
            "CTGSoy-BRL-2025Q1".to_string(),
            metadata1,
            distribution,
            500_000,
        )
        .unwrap();

    token
        .mint_spot(
            "CTGSoy-BRL-2025Q2".to_string(),
            metadata2,
            distribution,
            500_000,
        )
        .unwrap();

    // Verify combined balance
    assert_eq!(token.balance_of(PRODUCER), 990_000); // 495k + 495k
    assert_eq!(token.balance_of(ADMIN), 5_000); // 2.5k + 2.5k
    assert_eq!(token.balance_of(STORAGE), 5_000); // 2.5k + 2.5k
    assert_eq!(token.total_supply(), 1_000_000);

    // Transfer some tokens
    token.transfer(PRODUCER, BUYER, 100_000, false).unwrap();

    // Burn some tokens from different party
    token
        .burn(BUYER, "CTGSoy-BRL-2025Q1".to_string(), 50_000)
        .unwrap();

    // Final balance check
    assert_eq!(token.balance_of(PRODUCER), 890_000);
    assert_eq!(token.balance_of(BUYER), 50_000);
    assert_eq!(token.balance_of(ADMIN), 5_125); // +125 from burn fee
    assert_eq!(token.balance_of(STORAGE), 5_125); // +125 from burn fee
    assert_eq!(token.total_supply(), 950_250); // 1M - 50k + 250 fees
}

#[test]
fn test_performance_large_operations() {
    let mut token = setup_token();

    // Mint large amount
    token
        .mint_spot(
            "CTGSoy-BRL-2025Q1".to_string(),
            create_spot_metadata(),
            create_standard_distribution(),
            100_000_000, // 100M tokens
        )
        .unwrap();

    assert_eq!(token.balance_of(PRODUCER), 99_000_000);
    assert_eq!(token.balance_of(ADMIN), 500_000);
    assert_eq!(token.balance_of(STORAGE), 500_000);

    // Multiple small transfers
    for _i in 0..10 {
        token.transfer(PRODUCER, BUYER, 1_000_000, false).unwrap();
    }

    assert_eq!(token.balance_of(PRODUCER), 89_000_000);
    assert_eq!(token.balance_of(BUYER), 10_000_000);
}

#[test]
fn test_complete_business_flow() {
    let mut token = setup_token();

    // Scenario: Producer has soy stored, tokenizes it, sells part to trader,
    // trader sells to end buyer who burns for delivery
    let trader: u64 = 7;

    // 1. Producer tokenizes stored soy
    token
        .mint_spot(
            "CTGSoy-BRL-2025Q1".to_string(),
            create_spot_metadata(),
            create_standard_distribution(),
            1_000_000, // 1000 tons
        )
        .unwrap();

    println!(
        "Producer balance after minting: {}",
        token.balance_of(PRODUCER)
    );

    // 2. Producer sells 300k tokens to trader
    token.transfer(PRODUCER, trader, 300_000, false).unwrap();

    println!("Trader balance after purchase: {}", token.balance_of(trader));

    // 3. Enable transfer fees for secondary market
    token.set_transfer_fee(50).unwrap(); // 0.5%

    // 4. Trader sells to end buyer with fee
    token.transfer(trader, BUYER, 300_000, true).unwrap();

    println!("Buyer balance after purchase: {}", token.balance_of(BUYER));
    println!(
        "Platform earned from transfer fee: {}",
        token.balance_of(ADMIN) - 5_000
    );

    // 5. End buyer burns tokens for physical delivery
    token
        .burn(BUYER, "CTGSoy-BRL-2025Q1".to_string(), 100_000)
        .unwrap();

    // Verify final state
    assert_eq!(token.balance_of(PRODUCER), 690_000); // Initial - sold
    assert_eq!(token.balance_of(trader), 0); // Sold all
    assert_eq!(token.balance_of(BUYER), 198_500); // Bought - fee - burned

    // Platform and storage earned from:
    // - Initial mint: 5k each
    // - Transfer fee: 1.5k to platform
    // - Burn fee: 250 each
    assert_eq!(token.balance_of(ADMIN), 6_750);
    assert_eq!(token.balance_of(STORAGE), 5_250);
}
