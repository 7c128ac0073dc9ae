//! The genesis configuration and the rules it must satisfy before any
//! session is opened.

use vstd::prelude::*;

verus! {

/// Chain identity of the production network. A test-mode genesis must never
/// be built for it.
pub const MAINNET_CHAIN_ID: u8 = 1;

/// Upper bound (exclusive) of the yearly rewards rate, in percent.
pub const REWARDS_APY_LIMIT: u64 = 100;

/// Upper bound (inclusive) of the voting power that may join in one epoch,
/// in percent.
pub const VOTING_POWER_INCREASE_CAP: u64 = 50;

/// The parameters a genesis is built from. Read-only to this crate.
#[derive(Clone, Copy, Debug, PartialEq, Eq, Structural)]
pub struct GenesisConfiguration {
    /// Identity of the chain; zero means that none was given.
    pub chain_id: u8,
    /// Test mode: seeds a faucet account that may also set the version.
    pub is_test: bool,
    pub epoch_duration_secs: u64,
    pub min_stake: u64,
    pub max_stake: u64,
    pub recurring_lockup_duration_secs: u64,
    pub rewards_apy_percentage: u64,
    pub voting_duration_secs: u64,
    pub voting_power_increase_limit: u64,
    /// Version of the gas schedule under which both sessions are finished.
    pub gas_feature_version: u64,
}

/// Which rule a configuration breaks. The variants stand in the order in
/// which the rules are tried: the first broken rule is the one reported.
#[derive(Clone, Copy, Debug, PartialEq, Eq, Structural)]
pub enum ConfigurationError {
    /// No chain identity was given.
    MissingChainId,
    /// Test mode is on for the production chain.
    TestModeOnMainnet,
    /// The minimum stake exceeds the maximum stake.
    StakeRange,
    /// The epoch duration is not positive.
    EpochDuration,
    /// The recurring lockup duration is not positive.
    LockupDuration,
    /// The recurring lockup is shorter than an epoch.
    LockupShorterThanEpoch,
    /// The rewards rate is not strictly between 0% and 100%.
    RewardsRate,
    /// The voting duration is not positive.
    VotingDuration,
    /// The voting duration is not strictly shorter than the lockup.
    VotingNotShorterThanLockup,
    /// The voting power increase limit is not in 1..=50.
    VotingPowerIncreaseLimit,
}

/// Whether `config` breaks the rule that `rule` names.
pub open spec fn breaks(config: GenesisConfiguration, rule: ConfigurationError) -> bool {
    match rule {
        ConfigurationError::MissingChainId => config.chain_id == 0,
        ConfigurationError::TestModeOnMainnet => config.is_test && config.chain_id
            == MAINNET_CHAIN_ID,
        ConfigurationError::StakeRange => config.min_stake > config.max_stake,
        ConfigurationError::EpochDuration => config.epoch_duration_secs == 0,
        ConfigurationError::LockupDuration => config.recurring_lockup_duration_secs == 0,
        ConfigurationError::LockupShorterThanEpoch => config.recurring_lockup_duration_secs
            < config.epoch_duration_secs,
        ConfigurationError::RewardsRate => config.rewards_apy_percentage == 0
            || config.rewards_apy_percentage >= REWARDS_APY_LIMIT,
        ConfigurationError::VotingDuration => config.voting_duration_secs == 0,
        ConfigurationError::VotingNotShorterThanLockup => config.voting_duration_secs
            >= config.recurring_lockup_duration_secs,
        ConfigurationError::VotingPowerIncreaseLimit => config.voting_power_increase_limit == 0
            || config.voting_power_increase_limit > VOTING_POWER_INCREASE_CAP,
    }
}

/// The place of a rule in the order of trial.
pub open spec fn rank(rule: ConfigurationError) -> nat {
    match rule {
        ConfigurationError::MissingChainId => 0,
        ConfigurationError::TestModeOnMainnet => 1,
        ConfigurationError::StakeRange => 2,
        ConfigurationError::EpochDuration => 3,
        ConfigurationError::LockupDuration => 4,
        ConfigurationError::LockupShorterThanEpoch => 5,
        ConfigurationError::RewardsRate => 6,
        ConfigurationError::VotingDuration => 7,
        ConfigurationError::VotingNotShorterThanLockup => 8,
        ConfigurationError::VotingPowerIncreaseLimit => 9,
    }
}

/// A configuration is valid when it breaks no rule.
pub open spec fn config_valid(config: GenesisConfiguration) -> bool {
    &&& config.chain_id != 0
    &&& !(config.is_test && config.chain_id == MAINNET_CHAIN_ID)
    &&& config.min_stake <= config.max_stake
    &&& 0 < config.epoch_duration_secs <= config.recurring_lockup_duration_secs
    &&& 0 < config.rewards_apy_percentage < REWARDS_APY_LIMIT
    &&& 0 < config.voting_duration_secs < config.recurring_lockup_duration_secs
    &&& 0 < config.voting_power_increase_limit <= VOTING_POWER_INCREASE_CAP
}

/// `rule` is the first rule, in the order of trial, that `config` breaks.
pub open spec fn first_broken(config: GenesisConfiguration, rule: ConfigurationError) -> bool {
    &&& breaks(config, rule)
    &&& forall|earlier: ConfigurationError|
        rank(earlier) < rank(rule) ==> !breaks(config, earlier)
}

/// Checks a configuration. Accepts exactly the valid ones; rejects every
/// other with the first rule it breaks.
pub fn validate_genesis_config(config: &GenesisConfiguration) -> (verdict: Result<
    (),
    ConfigurationError,
>)
    ensures
        verdict is Ok <==> config_valid(*config),
        verdict matches Err(rule) ==> first_broken(*config, rule),
{
    if config.chain_id == 0 {
        return Err(ConfigurationError::MissingChainId);
    }
    if config.is_test && config.chain_id == MAINNET_CHAIN_ID {
        return Err(ConfigurationError::TestModeOnMainnet);
    }
    if config.min_stake > config.max_stake {
        return Err(ConfigurationError::StakeRange);
    }
    if config.epoch_duration_secs == 0 {
        return Err(ConfigurationError::EpochDuration);
    }
    if config.recurring_lockup_duration_secs == 0 {
        return Err(ConfigurationError::LockupDuration);
    }
    if config.recurring_lockup_duration_secs < config.epoch_duration_secs {
        return Err(ConfigurationError::LockupShorterThanEpoch);
    }
    if config.rewards_apy_percentage == 0 || config.rewards_apy_percentage >= REWARDS_APY_LIMIT {
        return Err(ConfigurationError::RewardsRate);
    }
    if config.voting_duration_secs == 0 {
        return Err(ConfigurationError::VotingDuration);
    }
    if config.voting_duration_secs >= config.recurring_lockup_duration_secs {
        return Err(ConfigurationError::VotingNotShorterThanLockup);
    }
    if config.voting_power_increase_limit == 0 || config.voting_power_increase_limit
        > VOTING_POWER_INCREASE_CAP {
        return Err(ConfigurationError::VotingPowerIncreaseLimit);
    }
    Ok(())
}

/// The valid configurations are those that break none of the rules.
pub proof fn lemma_valid_breaks_nothing(config: GenesisConfiguration)
    ensures
        config_valid(config) <==> forall|rule: ConfigurationError| !breaks(config, rule),
{
    if !config_valid(config) {
        assert(breaks(config, ConfigurationError::MissingChainId) || breaks(
            config,
            ConfigurationError::TestModeOnMainnet,
        ) || breaks(config, ConfigurationError::StakeRange) || breaks(
            config,
            ConfigurationError::EpochDuration,
        ) || breaks(config, ConfigurationError::LockupDuration) || breaks(
            config,
            ConfigurationError::LockupShorterThanEpoch,
        ) || breaks(config, ConfigurationError::RewardsRate) || breaks(
            config,
            ConfigurationError::VotingDuration,
        ) || breaks(config, ConfigurationError::VotingNotShorterThanLockup) || breaks(
            config,
            ConfigurationError::VotingPowerIncreaseLimit,
        ));
    }
}

/// At most one rule is the first broken one, so the error of
/// `validate_genesis_config` is fixed by the configuration.
pub proof fn lemma_first_broken_unique(
    config: GenesisConfiguration,
    a: ConfigurationError,
    b: ConfigurationError,
)
    requires
        first_broken(config, a),
        first_broken(config, b),
    ensures
        a == b,
{
    if rank(a) < rank(b) {
        assert(!breaks(config, a));
    } else if rank(b) < rank(a) {
        assert(!breaks(config, b));
    }
}

} // verus!
