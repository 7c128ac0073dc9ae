//! What a genesis run is given.

use crate::config::GenesisConfiguration;
use crate::state_view::FrameworkBundle;
use vstd::prelude::*;

verus! {

/// One participant of the initial validator set. This crate hands
/// validators through; it never changes one.
#[derive(Debug, PartialEq, Eq)]
pub struct Validator {
    pub owner_address: [u8; 32],
    pub operator_address: [u8; 32],
    pub voter_address: [u8; 32],
    pub consensus_pubkey: Vec<u8>,
    pub proof_of_possession: Vec<u8>,
    pub network_addresses: Vec<u8>,
    pub full_node_network_addresses: Vec<u8>,
    /// Initial stake, in the smallest unit of the coin.
    pub stake_amount: u64,
}

/// Everything a genesis run reads.
#[derive(Debug, PartialEq, Eq)]
pub struct GenesisInputs {
    /// Public key of the faucet account of a test-mode genesis.
    pub core_resources_key: Vec<u8>,
    /// The initial validators, in registration order.
    pub validators: Vec<Validator>,
    pub framework: FrameworkBundle,
    pub genesis_config: GenesisConfiguration,
}

/// What a mainnet genesis is built from besides its validators.
#[derive(Debug, PartialEq, Eq)]
pub struct MainnetDefaults {
    pub core_resources_key: Vec<u8>,
    /// The framework that is published unless the caller names another.
    pub framework: FrameworkBundle,
    pub genesis_config: GenesisConfiguration,
}

/// The inputs of a mainnet genesis: the defaults, with the validators of
/// the caller and with the framework of the caller where one is named.
pub open spec fn mainnet_inputs(
    validators: Vec<Validator>,
    framework_override: Option<FrameworkBundle>,
    defaults: MainnetDefaults,
) -> GenesisInputs {
    GenesisInputs {
        core_resources_key: defaults.core_resources_key,
        validators,
        framework: match framework_override {
            Some(framework) => framework,
            None => defaults.framework,
        },
        genesis_config: defaults.genesis_config,
    }
}

/// Puts the inputs of a mainnet genesis together.
pub fn assemble_mainnet_inputs(
    validators: Vec<Validator>,
    framework_override: Option<FrameworkBundle>,
    defaults: MainnetDefaults,
) -> (inputs: GenesisInputs)
    ensures
        inputs == mainnet_inputs(validators, framework_override, defaults),
{
    let MainnetDefaults { core_resources_key, framework, genesis_config } = defaults;
    GenesisInputs {
        core_resources_key,
        validators,
        framework: match framework_override {
            Some(named) => named,
            None => framework,
        },
        genesis_config,
    }
}

} // verus!
