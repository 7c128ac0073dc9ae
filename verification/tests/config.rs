use genesis_tools::config::{
    validate_genesis_config, ConfigurationError, GenesisConfiguration, MAINNET_CHAIN_ID,
};

fn valid() -> GenesisConfiguration {
    GenesisConfiguration {
        chain_id: 4,
        is_test: true,
        epoch_duration_secs: 7_200,
        min_stake: 1_000_000,
        max_stake: 50_000_000,
        recurring_lockup_duration_secs: 2_592_000,
        rewards_apy_percentage: 10,
        voting_duration_secs: 604_800,
        voting_power_increase_limit: 30,
        gas_feature_version: 6,
    }
}

#[test]
fn valid_configuration_is_accepted() {
    assert_eq!(validate_genesis_config(&valid()), Ok(()));
}

#[test]
fn production_configuration_for_mainnet_is_accepted() {
    let config = GenesisConfiguration { is_test: false, chain_id: MAINNET_CHAIN_ID, ..valid() };
    assert_eq!(validate_genesis_config(&config), Ok(()));
}

#[test]
fn boundary_values_are_accepted() {
    let config = GenesisConfiguration {
        chain_id: 255,
        min_stake: 7,
        max_stake: 7,
        epoch_duration_secs: 1,
        recurring_lockup_duration_secs: 2,
        voting_duration_secs: 1,
        rewards_apy_percentage: 99,
        voting_power_increase_limit: 50,
        ..valid()
    };
    assert_eq!(validate_genesis_config(&config), Ok(()));
    let config = GenesisConfiguration {
        rewards_apy_percentage: 1,
        voting_power_increase_limit: 1,
        epoch_duration_secs: 2_592_000,
        ..valid()
    };
    assert_eq!(validate_genesis_config(&config), Ok(()));
}

#[test]
fn missing_chain_id_is_rejected() {
    let config = GenesisConfiguration { chain_id: 0, ..valid() };
    assert_eq!(validate_genesis_config(&config), Err(ConfigurationError::MissingChainId));
}

#[test]
fn test_mode_on_mainnet_is_rejected() {
    let config = GenesisConfiguration { chain_id: 1, is_test: true, ..valid() };
    assert_eq!(validate_genesis_config(&config), Err(ConfigurationError::TestModeOnMainnet));
}

#[test]
fn inverted_stake_range_is_rejected() {
    let config = GenesisConfiguration { min_stake: 50_000_001, ..valid() };
    assert_eq!(validate_genesis_config(&config), Err(ConfigurationError::StakeRange));
}

#[test]
fn zero_epoch_duration_is_rejected() {
    let config = GenesisConfiguration { epoch_duration_secs: 0, ..valid() };
    assert_eq!(validate_genesis_config(&config), Err(ConfigurationError::EpochDuration));
}

#[test]
fn zero_lockup_is_rejected() {
    let config = GenesisConfiguration { recurring_lockup_duration_secs: 0, ..valid() };
    assert_eq!(validate_genesis_config(&config), Err(ConfigurationError::LockupDuration));
}

#[test]
fn lockup_shorter_than_epoch_is_rejected() {
    let config = GenesisConfiguration { recurring_lockup_duration_secs: 7_199, ..valid() };
    assert_eq!(validate_genesis_config(&config), Err(ConfigurationError::LockupShorterThanEpoch));
}

#[test]
fn rewards_rate_out_of_range_is_rejected() {
    let config = GenesisConfiguration { rewards_apy_percentage: 0, ..valid() };
    assert_eq!(validate_genesis_config(&config), Err(ConfigurationError::RewardsRate));
    let config = GenesisConfiguration { rewards_apy_percentage: 100, ..valid() };
    assert_eq!(validate_genesis_config(&config), Err(ConfigurationError::RewardsRate));
}

#[test]
fn zero_voting_duration_is_rejected() {
    let config = GenesisConfiguration { voting_duration_secs: 0, ..valid() };
    assert_eq!(validate_genesis_config(&config), Err(ConfigurationError::VotingDuration));
}

#[test]
fn voting_as_long_as_lockup_is_rejected() {
    let config = GenesisConfiguration { voting_duration_secs: 2_592_000, ..valid() };
    assert_eq!(
        validate_genesis_config(&config),
        Err(ConfigurationError::VotingNotShorterThanLockup)
    );
}

#[test]
fn voting_power_increase_limit_out_of_range_is_rejected() {
    let config = GenesisConfiguration { voting_power_increase_limit: 0, ..valid() };
    assert_eq!(validate_genesis_config(&config), Err(ConfigurationError::VotingPowerIncreaseLimit));
    let config = GenesisConfiguration { voting_power_increase_limit: 51, ..valid() };
    assert_eq!(validate_genesis_config(&config), Err(ConfigurationError::VotingPowerIncreaseLimit));
}

#[test]
fn the_first_broken_rule_is_reported() {
    let config = GenesisConfiguration {
        chain_id: 0,
        epoch_duration_secs: 0,
        voting_power_increase_limit: 0,
        ..valid()
    };
    assert_eq!(validate_genesis_config(&config), Err(ConfigurationError::MissingChainId));
    let config = GenesisConfiguration {
        epoch_duration_secs: 0,
        rewards_apy_percentage: 0,
        voting_power_increase_limit: 0,
        ..valid()
    };
    assert_eq!(validate_genesis_config(&config), Err(ConfigurationError::EpochDuration));
    let config = GenesisConfiguration {
        recurring_lockup_duration_secs: 0,
        voting_duration_secs: 0,
        ..valid()
    };
    assert_eq!(validate_genesis_config(&config), Err(ConfigurationError::LockupDuration));
}
