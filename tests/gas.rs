use relay_core::error::Error;
use relay_core::gas::{
    adjust_gas_with_simulated_fees, calculate_fee, default_gas_from_config,
    estimate_gas_with_raw_tx, gas_adjustment_from_config, gas_amount_to_fees,
    max_fee_from_config, max_gas_from_config, mul_ceil, ChainConfig, GasConfig, GasPrice, Ratio,
    Simulation, DEFAULT_MAX_GAS,
};

fn price() -> GasPrice {
    GasPrice { price: Ratio::new(1, 1000).unwrap(), denom: "stake".to_string() }
}

fn chain_config() -> ChainConfig {
    ChainConfig {
        id: "ibc-0".to_string(),
        default_gas: Some(100_000),
        max_gas: Some(400_000),
        gas_adjustment: None,
        gas_price: price(),
        max_msg_num: 30,
        max_tx_size: 2_097_152,
    }
}

fn gas_config() -> GasConfig {
    GasConfig::from_chain_config(&chain_config())
}

#[test]
fn ratio_needs_a_positive_denominator() {
    assert!(Ratio::new(1, 0).is_none());
    let q = Ratio::new(3, 4).unwrap();
    assert_eq!((q.numerator(), q.denominator()), (3, 4));
}

#[test]
fn mul_ceil_rounds_up() {
    let third = Ratio::new(1, 3).unwrap();
    assert_eq!(mul_ceil(7, &third), 3);
    assert_eq!(mul_ceil(9, &third), 3);
    assert_eq!(mul_ceil(0, &third), 0);
    let big = Ratio::new(u64::MAX, 1).unwrap();
    assert_eq!(mul_ceil(u64::MAX, &big), (u64::MAX as u128) * (u64::MAX as u128));
}

#[test]
fn config_defaults() {
    let mut config = chain_config();
    config.default_gas = None;
    config.max_gas = None;
    assert_eq!(max_gas_from_config(&config), DEFAULT_MAX_GAS);
    assert_eq!(default_gas_from_config(&config), DEFAULT_MAX_GAS);
    let adjustment = gas_adjustment_from_config(&config);
    assert_eq!((adjustment.numerator(), adjustment.denominator()), (1, 10));
    assert_eq!(default_gas_from_config(&chain_config()), 100_000);
    assert_eq!(max_gas_from_config(&chain_config()), 400_000);
}

#[test]
fn max_fee_pays_max_gas() {
    let fee = max_fee_from_config(&chain_config());
    assert_eq!(fee.gas_limit, 400_000);
    assert_eq!(fee.amount.len(), 1);
    assert_eq!(fee.amount[0].amount, 400);
    assert_eq!(fee.amount[0].denom, "stake");
    assert_eq!(fee.payer, "");
    assert_eq!(fee.granter, "");
}

#[test]
fn calculate_fee_rounds_up() {
    let coin = calculate_fee(1_001, &price());
    assert_eq!(coin.amount, 2);
    assert_eq!(coin.denom, "stake");
}

#[test]
fn adjusted_gas_adds_a_tenth_up_to_max() {
    let config = gas_config();
    assert_eq!(adjust_gas_with_simulated_fees(&config, 100_000), 110_000);
    assert_eq!(adjust_gas_with_simulated_fees(&config, 101), 112);
    assert_eq!(adjust_gas_with_simulated_fees(&config, 380_000), 400_000);
    let fee = gas_amount_to_fees(&config, 100_000);
    assert_eq!(fee.gas_limit, 110_000);
    assert_eq!(fee.amount[0].amount, 110);
}

#[test]
fn gas_above_max_is_refused() {
    let config = gas_config();
    let chain_id = "ibc-0".to_string();
    match estimate_gas_with_raw_tx(&config, &chain_id, Simulation::GasUsed(400_001)) {
        Err(Error::GasEstimateExceeded { chain_id, estimated_gas, max_gas }) => {
            assert_eq!(chain_id, "ibc-0");
            assert_eq!(estimated_gas, 400_001);
            assert_eq!(max_gas, 400_000);
        }
        other => panic!("unexpected: {:?}", other),
    }
}

#[test]
fn gas_equal_to_max_pays_max_gas() {
    let config = gas_config();
    let fee = estimate_gas_with_raw_tx(&config, &"ibc-0".to_string(), Simulation::GasUsed(400_000))
        .unwrap();
    assert_eq!(fee.gas_limit, 400_000);
    assert_eq!(fee.amount[0].amount, 400);
}

#[test]
fn failed_simulation_falls_back_on_default_gas() {
    let config = gas_config();
    let chain_id = "ibc-0".to_string();
    let failed = estimate_gas_with_raw_tx(&config, &chain_id, Simulation::Failed).unwrap();
    let no_info = estimate_gas_with_raw_tx(&config, &chain_id, Simulation::NoGasInfo).unwrap();
    assert_eq!(failed.gas_limit, 110_000);
    assert_eq!(no_info, failed);
    let mut small = gas_config();
    small.default_gas = 500_000;
    assert!(estimate_gas_with_raw_tx(&small, &chain_id, Simulation::Failed).is_err());
}
