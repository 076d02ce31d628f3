//! Gas and fee estimation for transactions.
use vstd::prelude::*;

use crate::error::Error;

verus! {

/// Gas limit used when a chain's configuration sets none.
pub const DEFAULT_MAX_GAS: u64 = 400_000;

/// A non-negative rational number `numerator / denominator`.
#[derive(Clone, Copy, Debug, PartialEq, Eq)]
pub struct Ratio {
    numerator: u64,
    denominator: u64,
}

impl Ratio {
    #[verifier::type_invariant]
    spec fn denominator_positive(self) -> bool {
        self.denominator > 0
    }

    pub closed spec fn num(self) -> nat {
        self.numerator as nat
    }

    pub closed spec fn den(self) -> nat {
        self.denominator as nat
    }

    /// `numerator / denominator`, or `None` for a zero denominator.
    pub fn new(numerator: u64, denominator: u64) -> (r: Option<Ratio>)
        ensures
            r is Some <==> denominator > 0,
            r matches Some(q) ==> q.num() == numerator && q.den() == denominator,
    {
        if denominator == 0 {
            None
        } else {
            Some(Ratio { numerator, denominator })
        }
    }

    pub fn numerator(&self) -> (r: u64)
        ensures
            r == self.num(),
    {
        self.numerator
    }

    pub fn denominator(&self) -> (r: u64)
        ensures
            r == self.den(),
            r > 0,
    {
        proof {
            use_type_invariant(self);
        }
        self.denominator
    }
}

/// `ceil(a * q)`.
pub open spec fn ceil_mul(a: nat, q: Ratio) -> nat {
    if q.den() == 0 {
        0
    } else {
        ((a * q.num() + q.den() - 1) as nat) / q.den()
    }
}

/// `ceil(a * q)`, computed exactly.
pub fn mul_ceil(a: u64, q: &Ratio) -> (r: u128)
    ensures
        r == ceil_mul(a as nat, *q),
{
    let num = q.numerator();
    let den = q.denominator();
    assert((a as nat) * (num as nat) <= (u64::MAX as nat) * (u64::MAX as nat)) by (nonlinear_arith)
        requires
            a <= u64::MAX,
            num <= u64::MAX,
    ;
    let product: u128 = (a as u128) * (num as u128);
    (product + (den as u128) - 1) / (den as u128)
}

/// A price per unit of gas, in a given denomination.
#[derive(Clone, Debug, PartialEq, Eq)]
pub struct GasPrice {
    pub price: Ratio,
    pub denom: String,
}

/// An amount of one denomination.
#[derive(Clone, Debug, PartialEq, Eq)]
pub struct Coin {
    pub denom: String,
    pub amount: u128,
}

/// The fee attached to a transaction.
#[derive(Clone, Debug, PartialEq, Eq)]
pub struct Fee {
    pub amount: Vec<Coin>,
    pub gas_limit: u64,
    pub payer: String,
    pub granter: String,
}

/// The gas settings of a chain's configuration.
#[derive(Clone, Debug, PartialEq, Eq)]
pub struct ChainConfig {
    pub id: String,
    pub default_gas: Option<u64>,
    pub max_gas: Option<u64>,
    pub gas_adjustment: Option<Ratio>,
    pub gas_price: GasPrice,
    pub max_msg_num: usize,
    pub max_tx_size: usize,
}

/// Gas settings resolved from a chain's configuration.
#[derive(Clone, Debug, PartialEq, Eq)]
pub struct GasConfig {
    pub default_gas: u64,
    pub max_gas: u64,
    pub gas_adjustment: Ratio,
    pub gas_price: GasPrice,
    pub max_fee: Fee,
}

/// A fee that pays `ceil(gas_limit * price)` of the price's denomination.
pub open spec fn is_fee_for(fee: Fee, gas_limit: u64, price: GasPrice) -> bool {
    &&& fee.gas_limit == gas_limit
    &&& fee.amount@.len() == 1
    &&& fee.amount@[0].amount == ceil_mul(gas_limit as nat, price.price)
    &&& fee.amount@[0].denom@ == price.denom@
    &&& fee.payer@.len() == 0
    &&& fee.granter@.len() == 0
}

pub open spec fn spec_max_gas(config: ChainConfig) -> u64 {
    match config.max_gas {
        Some(g) => g,
        None => DEFAULT_MAX_GAS,
    }
}

pub open spec fn spec_default_gas(config: ChainConfig) -> u64 {
    match config.default_gas {
        Some(g) => g,
        None => spec_max_gas(config),
    }
}

/// The adjustment used when a configuration sets none: one tenth.
pub open spec fn is_default_adjustment(q: Ratio) -> bool {
    q.num() == 1 && q.den() == 10
}

/// The amount of the price's denomination that pays for `gas_amount` gas.
pub fn calculate_fee(gas_amount: u64, gas_price: &GasPrice) -> (r: Coin)
    ensures
        r.amount == ceil_mul(gas_amount as nat, gas_price.price),
        r.denom@ == gas_price.denom@,
{
    Coin { denom: gas_price.denom.clone(), amount: mul_ceil(gas_amount, &gas_price.price) }
}

fn fee_with_limit(gas_limit: u64, gas_price: &GasPrice) -> (r: Fee)
    ensures
        is_fee_for(r, gas_limit, *gas_price),
{
    let amount = calculate_fee(gas_limit, gas_price);
    let mut coins: Vec<Coin> = Vec::new();
    coins.push(amount);
    Fee { amount: coins, gas_limit, payer: String::new(), granter: String::new() }
}

pub fn max_gas_from_config(config: &ChainConfig) -> (r: u64)
    ensures
        r == spec_max_gas(*config),
{
    match config.max_gas {
        Some(g) => g,
        None => DEFAULT_MAX_GAS,
    }
}

pub fn default_gas_from_config(config: &ChainConfig) -> (r: u64)
    ensures
        r == spec_default_gas(*config),
{
    match config.default_gas {
        Some(g) => g,
        None => max_gas_from_config(config),
    }
}

pub fn gas_adjustment_from_config(config: &ChainConfig) -> (r: Ratio)
    ensures
        config.gas_adjustment matches Some(q) ==> r == q,
        config.gas_adjustment is None ==> is_default_adjustment(r),
{
    match config.gas_adjustment {
        Some(q) => q,
        None => {
            let q = Ratio::new(1, 10);
            q.unwrap()
        },
    }
}

/// The fee offered when simulating: the maximum gas at the configured price.
pub fn max_fee_from_config(config: &ChainConfig) -> (r: Fee)
    ensures
        is_fee_for(r, spec_max_gas(*config), config.gas_price),
{
    let gas_limit = max_gas_from_config(config);
    fee_with_limit(gas_limit, &config.gas_price)
}

impl GasConfig {
    pub fn from_chain_config(config: &ChainConfig) -> (r: GasConfig)
        ensures
            r.default_gas == spec_default_gas(*config),
            r.max_gas == spec_max_gas(*config),
            config.gas_adjustment matches Some(q) ==> r.gas_adjustment == q,
            config.gas_adjustment is None ==> is_default_adjustment(r.gas_adjustment),
            r.gas_price.price == config.gas_price.price,
            r.gas_price.denom@ == config.gas_price.denom@,
            is_fee_for(r.max_fee, spec_max_gas(*config), config.gas_price),
    {
        GasConfig {
            default_gas: default_gas_from_config(config),
            max_gas: max_gas_from_config(config),
            gas_adjustment: gas_adjustment_from_config(config),
            gas_price: GasPrice {
                price: config.gas_price.price,
                denom: config.gas_price.denom.clone(),
            },
            max_fee: max_fee_from_config(config),
        }
    }
}

/// `min(gas + ceil(gas * adjustment), max_gas)`.
pub open spec fn adjusted_gas(gas_amount: u64, adjustment: Ratio, max_gas: u64) -> u64 {
    let raised = gas_amount + ceil_mul(gas_amount as nat, adjustment);
    if raised < max_gas {
        raised as u64
    } else {
        max_gas
    }
}

pub fn adjust_gas_with_simulated_fees(config: &GasConfig, gas_amount: u64) -> (r: u64)
    ensures
        r == adjusted_gas(gas_amount, config.gas_adjustment, config.max_gas),
{
    let extra = mul_ceil(gas_amount, &config.gas_adjustment);
    if extra < (config.max_gas as u128) && (gas_amount as u128) < (config.max_gas as u128) - extra {
        (gas_amount as u128 + extra) as u64
    } else {
        config.max_gas
    }
}

/// The fee for `gas_amount` simulated gas: the adjusted gas as limit, paid at
/// the configured price.
pub fn gas_amount_to_fees(config: &GasConfig, gas_amount: u64) -> (r: Fee)
    ensures
        is_fee_for(
            r,
            adjusted_gas(gas_amount, config.gas_adjustment, config.max_gas),
            config.gas_price,
        ),
{
    let gas_limit = adjust_gas_with_simulated_fees(config, gas_amount);
    fee_with_limit(gas_limit, &config.gas_price)
}

/// What simulating a transaction gave.
#[derive(Clone, Copy, Debug, PartialEq, Eq)]
pub enum Simulation {
    /// The simulation ran and reported the gas it used.
    GasUsed(u64),
    /// The simulation ran but reported no gas information.
    NoGasInfo,
    /// The simulation failed.
    Failed,
}

/// The gas a transaction is estimated to need: what the simulation used, else
/// the configured default.
pub open spec fn estimated_gas(config: GasConfig, simulation: Simulation) -> u64 {
    match simulation {
        Simulation::GasUsed(g) => g,
        _ => config.default_gas,
    }
}

/// Turns a simulation outcome into the fee to pay. An estimate above the
/// maximum gas is refused, never truncated.
pub fn estimate_gas_with_raw_tx(config: &GasConfig, chain_id: &String, simulation: Simulation) -> (r:
    Result<Fee, Error>)
    ensures
        r is Ok <==> estimated_gas(*config, simulation) <= config.max_gas,
        r matches Ok(fee) ==> is_fee_for(
            fee,
            adjusted_gas(estimated_gas(*config, simulation), config.gas_adjustment, config.max_gas),
            config.gas_price,
        ),
        r matches Err(e) ==> e matches Error::GasEstimateExceeded { chain_id: c, estimated_gas: g, max_gas: m }
            && c@ == chain_id@ && g == estimated_gas(*config, simulation) && m == config.max_gas,
{
    let estimated = match simulation {
        Simulation::GasUsed(g) => g,
        Simulation::NoGasInfo => config.default_gas,
        Simulation::Failed => config.default_gas,
    };
    if estimated > config.max_gas {
        Err(
            Error::GasEstimateExceeded {
                chain_id: chain_id.clone(),
                estimated_gas: estimated,
                max_gas: config.max_gas,
            },
        )
    } else {
        Ok(gas_amount_to_fees(config, estimated))
    }
}

/// At the boundary: an estimate of exactly `max_gas` is accepted, and its fee
/// is `max_gas` gas at the configured price.
pub proof fn lemma_estimate_at_max_gas_pays_max_gas(config: GasConfig, simulation: Simulation)
    requires
        estimated_gas(config, simulation) == config.max_gas,
    ensures
        adjusted_gas(estimated_gas(config, simulation), config.gas_adjustment, config.max_gas)
            == config.max_gas,
{
}

} // verus!
