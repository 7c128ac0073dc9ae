//! The fixed order of a genesis run: what is asked of the execution engine,
//! and when.

use crate::session::SessionPhase;
use vstd::prelude::*;

verus! {

/// The on-chain operations of a genesis run.
#[derive(Clone, Copy, Debug, PartialEq, Eq, Structural)]
pub enum GenesisStep {
    /// Writes the core on-chain configuration.
    Initialize,
    /// Writes the enabled feature flags.
    InitializeFeatures,
    /// Test mode: sets up the coin together with a faucet account.
    InitializeCoreResourcesAndAptosCoin,
    /// Production: sets up the coin, without a faucet.
    InitializeAptosCoin,
    /// Writes the governance parameters.
    InitializeOnChainGovernance,
    /// Registers the validators, in the order given.
    CreateAndInitializeValidators,
    /// Test mode: lets the faucet account set the on-chain version.
    AllowCoreResourcesToSetVersion,
    /// Marks the end of the genesis-only operations.
    SetGenesisEnd,
    /// Emits the first block and the reconfiguration event.
    EmitNewBlockAndEpochEvent,
    /// Publishes every module of the framework.
    PublishFramework,
}

/// One request to the execution engine.
#[derive(Clone, Copy, Debug, PartialEq, Eq, Structural)]
pub enum Command {
    /// Open the session of a phase on a fresh state view.
    OpenSession(SessionPhase),
    /// Run an operation in the open session.
    Invoke(GenesisStep),
    /// Finish the session of a phase and hand out its change set.
    FinishSession(SessionPhase),
}

/// The operations of the initialization session, in order.
pub open spec fn initialization_steps(is_test: bool) -> Seq<GenesisStep> {
    if is_test {
        seq![
            GenesisStep::Initialize,
            GenesisStep::InitializeFeatures,
            GenesisStep::InitializeCoreResourcesAndAptosCoin,
            GenesisStep::InitializeOnChainGovernance,
            GenesisStep::CreateAndInitializeValidators,
            GenesisStep::AllowCoreResourcesToSetVersion,
            GenesisStep::SetGenesisEnd,
            GenesisStep::EmitNewBlockAndEpochEvent,
        ]
    } else {
        seq![
            GenesisStep::Initialize,
            GenesisStep::InitializeFeatures,
            GenesisStep::InitializeAptosCoin,
            GenesisStep::InitializeOnChainGovernance,
            GenesisStep::CreateAndInitializeValidators,
            GenesisStep::SetGenesisEnd,
            GenesisStep::EmitNewBlockAndEpochEvent,
        ]
    }
}

/// What follows the initialization steps: the first session is finished,
/// and the framework is published in a session of its own.
pub open spec fn publication_commands() -> Seq<Command> {
    seq![
        Command::FinishSession(SessionPhase::Initialization),
        Command::OpenSession(SessionPhase::Publication),
        Command::Invoke(GenesisStep::PublishFramework),
        Command::FinishSession(SessionPhase::Publication),
    ]
}

/// The whole run, in order.
pub open spec fn plan(is_test: bool) -> Seq<Command> {
    seq![Command::OpenSession(SessionPhase::Initialization)] + initialization_steps(
        is_test,
    ).map_values(|step: GenesisStep| Command::Invoke(step)) + publication_commands()
}

/// Where the publication session opens in the plan.
pub open spec fn publication_start(is_test: bool) -> int {
    plan(is_test).len() - 3
}

/// The plan, written out.
pub proof fn lemma_plan_unfolded(is_test: bool)
    ensures
        is_test ==> plan(is_test) =~= seq![
            Command::OpenSession(SessionPhase::Initialization),
            Command::Invoke(GenesisStep::Initialize),
            Command::Invoke(GenesisStep::InitializeFeatures),
            Command::Invoke(GenesisStep::InitializeCoreResourcesAndAptosCoin),
            Command::Invoke(GenesisStep::InitializeOnChainGovernance),
            Command::Invoke(GenesisStep::CreateAndInitializeValidators),
            Command::Invoke(GenesisStep::AllowCoreResourcesToSetVersion),
            Command::Invoke(GenesisStep::SetGenesisEnd),
            Command::Invoke(GenesisStep::EmitNewBlockAndEpochEvent),
            Command::FinishSession(SessionPhase::Initialization),
            Command::OpenSession(SessionPhase::Publication),
            Command::Invoke(GenesisStep::PublishFramework),
            Command::FinishSession(SessionPhase::Publication),
        ],
        !is_test ==> plan(is_test) =~= seq![
            Command::OpenSession(SessionPhase::Initialization),
            Command::Invoke(GenesisStep::Initialize),
            Command::Invoke(GenesisStep::InitializeFeatures),
            Command::Invoke(GenesisStep::InitializeAptosCoin),
            Command::Invoke(GenesisStep::InitializeOnChainGovernance),
            Command::Invoke(GenesisStep::CreateAndInitializeValidators),
            Command::Invoke(GenesisStep::SetGenesisEnd),
            Command::Invoke(GenesisStep::EmitNewBlockAndEpochEvent),
            Command::FinishSession(SessionPhase::Initialization),
            Command::OpenSession(SessionPhase::Publication),
            Command::Invoke(GenesisStep::PublishFramework),
            Command::FinishSession(SessionPhase::Publication),
        ],
{
}

/// No command occurs twice in a plan: each session is opened once and
/// finished once, and each operation runs at most once.
pub proof fn lemma_plan_has_no_repeats(is_test: bool)
    ensures
        forall|i: int, j: int|
            0 <= i < j < plan(is_test).len() ==> plan(is_test)[i] != plan(is_test)[j],
{
    lemma_plan_unfolded(is_test);
}

/// The faucet account is set up, and allowed to set the version, in test
/// mode and only then; the coin is set up without a faucet in production
/// and only then.
pub proof fn lemma_test_mode_steps(is_test: bool)
    ensures
        plan(is_test).contains(Command::Invoke(GenesisStep::InitializeCoreResourcesAndAptosCoin))
            <==> is_test,
        plan(is_test).contains(Command::Invoke(GenesisStep::AllowCoreResourcesToSetVersion))
            <==> is_test,
        plan(is_test).contains(Command::Invoke(GenesisStep::InitializeAptosCoin)) <==> !is_test,
{
    lemma_plan_unfolded(is_test);
    let commands = plan(is_test);
    if is_test {
        assert(commands[3] == Command::Invoke(GenesisStep::InitializeCoreResourcesAndAptosCoin));
        assert(commands[6] == Command::Invoke(GenesisStep::AllowCoreResourcesToSetVersion));
    } else {
        assert(commands[3] == Command::Invoke(GenesisStep::InitializeAptosCoin));
    }
}

/// The validators are registered exactly once, after the governance
/// parameters are written and before genesis is marked as ended.
pub proof fn lemma_validators_registered_once(is_test: bool)
    ensures
        plan(is_test)[4] == Command::Invoke(GenesisStep::InitializeOnChainGovernance),
        plan(is_test)[5] == Command::Invoke(GenesisStep::CreateAndInitializeValidators),
        forall|i: int|
            0 <= i < plan(is_test).len() && plan(is_test)[i] == Command::Invoke(
                GenesisStep::CreateAndInitializeValidators,
            ) ==> i == 5,
        forall|i: int|
            0 <= i < plan(is_test).len() && plan(is_test)[i] == Command::Invoke(
                GenesisStep::SetGenesisEnd,
            ) ==> i > 5,
{
    lemma_plan_unfolded(is_test);
}

/// The reconfiguration event is emitted exactly once, as the last
/// operation of the initialization session: every other operation of that
/// session comes before it, and the session is finished right after it.
pub proof fn lemma_reconfiguration_closes_initialization(is_test: bool)
    ensures
        plan(is_test)[0] == Command::OpenSession(SessionPhase::Initialization),
        forall|i: int| 0 < i < publication_start(is_test) - 1 ==> plan(is_test)[i] is Invoke,
        plan(is_test)[publication_start(is_test) - 2] == Command::Invoke(
            GenesisStep::EmitNewBlockAndEpochEvent,
        ),
        plan(is_test)[publication_start(is_test) - 1] == Command::FinishSession(
            SessionPhase::Initialization,
        ),
        forall|i: int|
            0 <= i < plan(is_test).len() && plan(is_test)[i] == Command::Invoke(
                GenesisStep::EmitNewBlockAndEpochEvent,
            ) ==> i == publication_start(is_test) - 2,
{
    lemma_plan_unfolded(is_test);
}

/// The framework is published in a session of its own, which opens only
/// after the initialization session is finished and holds no other
/// operation.
pub proof fn lemma_publication_is_isolated(is_test: bool)
    ensures
        plan(is_test).subrange(publication_start(is_test) - 1, plan(is_test).len() as int)
            == publication_commands(),
        forall|i: int|
            0 <= i < plan(is_test).len() && plan(is_test)[i] == Command::Invoke(
                GenesisStep::PublishFramework,
            ) ==> i == publication_start(is_test) + 1,
{
    lemma_plan_unfolded(is_test);
    assert(plan(is_test).subrange(publication_start(is_test) - 1, plan(is_test).len() as int)
        =~= publication_commands());
}

/// Builds the plan of a run.
pub fn genesis_plan(is_test: bool) -> (commands: Vec<Command>)
    ensures
        commands@ == plan(is_test),
{
    let mut commands: Vec<Command> = Vec::new();
    commands.push(Command::OpenSession(SessionPhase::Initialization));
    commands.push(Command::Invoke(GenesisStep::Initialize));
    commands.push(Command::Invoke(GenesisStep::InitializeFeatures));
    if is_test {
        commands.push(Command::Invoke(GenesisStep::InitializeCoreResourcesAndAptosCoin));
    } else {
        commands.push(Command::Invoke(GenesisStep::InitializeAptosCoin));
    }
    commands.push(Command::Invoke(GenesisStep::InitializeOnChainGovernance));
    commands.push(Command::Invoke(GenesisStep::CreateAndInitializeValidators));
    if is_test {
        commands.push(Command::Invoke(GenesisStep::AllowCoreResourcesToSetVersion));
    }
    commands.push(Command::Invoke(GenesisStep::SetGenesisEnd));
    commands.push(Command::Invoke(GenesisStep::EmitNewBlockAndEpochEvent));
    commands.push(Command::FinishSession(SessionPhase::Initialization));
    commands.push(Command::OpenSession(SessionPhase::Publication));
    commands.push(Command::Invoke(GenesisStep::PublishFramework));
    commands.push(Command::FinishSession(SessionPhase::Publication));
    proof {
        lemma_plan_unfolded(is_test);
        assert(commands@ =~= plan(is_test));
    }
    commands
}

} // verus!
