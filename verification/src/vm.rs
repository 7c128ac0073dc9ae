//! The genesis run as a state machine: from the state of a run and the
//! reply of the execution engine to the next state and the next action.
//! [`begin`] and [`resume`] are the steps; the two entry points run them
//! to the end against an engine that the caller hands in.

use crate::change_set::{
    genesis_invariants, holds_deletion, merge, merge_spec, ChangeSet, ChangeSetView, MergeError,
};
use crate::config::{
    config_valid, first_broken, validate_genesis_config, ConfigurationError, GenesisConfiguration,
};
use crate::events::reconfiguration_count;
use crate::inputs::{
    assemble_mainnet_inputs, mainnet_inputs, GenesisInputs, MainnetDefaults, Validator,
};
use crate::plan::{genesis_plan, lemma_plan_unfolded, plan, publication_start, Command, GenesisStep};
use crate::session::{
    lemma_session_ids_distinct, session_hash, session_id, SessionId, SessionPhase,
};
use crate::state_view::{modules_map, FrameworkBundle, GenesisStateView};
use vstd::prelude::*;

verus! {

/// How the execution engine failed.
#[derive(Clone, Copy, Debug, PartialEq, Eq, Structural)]
pub enum VmFailure {
    /// The engine reported this status.
    Status(u64),
    /// The engine answered with a reply that does not fit the command: a
    /// change set where none was due, or none where one was due.
    ProtocolViolation,
}

/// A failure of the execution engine, with the command during which it
/// came up.
#[derive(Clone, Copy, Debug, PartialEq, Eq, Structural)]
pub struct VmError {
    pub command: Command,
    pub failure: VmFailure,
}

/// Why no genesis change set was produced.
#[derive(Clone, Copy, Debug, PartialEq, Eq, Structural)]
pub enum GenesisError {
    Configuration(ConfigurationError),
    Vm(VmError),
    Merge(MergeError),
}

/// What the caller is to do next. Each action carries what the library
/// holds of its arguments.
#[derive(Debug)]
pub enum Action<'a> {
    /// Open a session under `session_id` on `state_view`, which is handed
    /// over for good.
    OpenSession { session_id: SessionId, state_view: GenesisStateView },
    Initialize { genesis_config: &'a GenesisConfiguration },
    InitializeFeatures,
    InitializeCoreResourcesAndAptosCoin { core_resources_key: &'a Vec<u8> },
    InitializeAptosCoin,
    InitializeOnChainGovernance { genesis_config: &'a GenesisConfiguration },
    CreateAndInitializeValidators { validators: &'a Vec<Validator> },
    AllowCoreResourcesToSetVersion,
    SetGenesisEnd,
    EmitNewBlockAndEpochEvent,
    PublishFramework { framework: &'a FrameworkBundle },
    /// Finish the open session without any limit on its change set, under
    /// the gas schedule of this version.
    FinishSession { gas_feature_version: u64 },
}

/// What the execution engine answered to an action.
#[derive(Debug)]
pub enum Reply {
    /// The session is open, or the operation ran.
    Completed,
    /// The session is finished; this is its change set.
    SessionFinished(ChangeSet),
    /// The engine failed with this status.
    Failed(u64),
}

/// What a reply holds.
#[verifier::ext_equal]
pub enum ReplyView {
    Completed,
    SessionFinished(ChangeSetView),
    Failed(u64),
}

impl View for Reply {
    type V = ReplyView;

    open spec fn view(&self) -> ReplyView {
        match self {
            Reply::Completed => ReplyView::Completed,
            Reply::SessionFinished(change_set) => ReplyView::SessionFinished(change_set@),
            Reply::Failed(status) => ReplyView::Failed(*status),
        }
    }
}

/// A run between two actions: which command of the plan is pending, and
/// the change set of the initialization session once that is finished.
#[derive(Debug)]
pub struct GenesisState {
    is_test: bool,
    commands: Vec<Command>,
    cursor: usize,
    initialization: Option<ChangeSet>,
}

impl GenesisState {
    #[verifier::type_invariant]
    spec fn well_formed(self) -> bool {
        &&& self.commands@ == plan(self.is_test)
        &&& self.cursor < self.commands@.len()
        &&& self.initialization is Some <==> self.cursor >= publication_start(self.is_test)
    }

    /// Whether the run is one of a test-mode genesis.
    pub closed spec fn test_mode(&self) -> bool {
        self.is_test
    }

    /// The place in the plan of the pending command.
    pub closed spec fn position(&self) -> nat {
        self.cursor as nat
    }

    /// The change set of the initialization session, once it is finished.
    pub closed spec fn initialization(&self) -> Option<ChangeSetView> {
        match self.initialization {
            Some(change_set) => Some(change_set@),
            None => None,
        }
    }

    /// The command whose reply the run waits for.
    pub open spec fn pending(&self) -> Command {
        plan(self.test_mode())[self.position() as int]
    }

    /// Whether the run is one of a test-mode genesis.
    pub fn is_test(&self) -> (is_test: bool)
        ensures
            is_test == self.test_mode(),
    {
        self.is_test
    }

    /// The command whose reply the run waits for.
    pub fn pending_command(&self) -> (command: Command)
        ensures
            command == self.pending(),
            self.position() < plan(self.test_mode()).len(),
    {
        proof {
            use_type_invariant(self);
        }
        self.commands[self.cursor]
    }
}

/// Where a run stands after a step.
#[derive(Debug)]
pub enum Progress<'a> {
    /// The run goes on: perform `action` and resume with the reply.
    Next { state: GenesisState, action: Action<'a> },
    /// The run is over; this is the genesis change set.
    Finished { change_set: ChangeSet },
    /// The run is over and produced nothing.
    Failed { error: GenesisError },
}

/// Where a run stands after a step, over what the values hold.
#[verifier::ext_equal]
pub enum Outcome {
    Next { position: nat, initialization: Option<ChangeSetView> },
    Finished { change_set: ChangeSetView },
    Failed { error: GenesisError },
}

impl<'a> Progress<'a> {
    /// Where the run stands.
    pub open spec fn outcome(&self) -> Outcome {
        match self {
            Progress::Next { state, action } => Outcome::Next {
                position: state.position(),
                initialization: state.initialization(),
            },
            Progress::Finished { change_set } => Outcome::Finished { change_set: change_set@ },
            Progress::Failed { error } => Outcome::Failed { error: *error },
        }
    }
}

/// `action` is the action of `command`, and carries exactly what `inputs`
/// hold for it.
pub open spec fn issues(inputs: &GenesisInputs, command: Command, action: Action) -> bool {
    match command {
        Command::OpenSession(phase) => {
            &&& action matches Action::OpenSession { session_id, state_view }
            &&& session_id.hash@ == session_hash(phase)
            &&& state_view@ == modules_map(inputs.framework.modules@)
        },
        Command::Invoke(step) => match step {
            GenesisStep::Initialize => {
                &&& action matches Action::Initialize { genesis_config }
                &&& *genesis_config == inputs.genesis_config
            },
            GenesisStep::InitializeFeatures => action is InitializeFeatures,
            GenesisStep::InitializeCoreResourcesAndAptosCoin => {
                &&& action matches Action::InitializeCoreResourcesAndAptosCoin {
                    core_resources_key,
                }
                &&& *core_resources_key == inputs.core_resources_key
            },
            GenesisStep::InitializeAptosCoin => action is InitializeAptosCoin,
            GenesisStep::InitializeOnChainGovernance => {
                &&& action matches Action::InitializeOnChainGovernance { genesis_config }
                &&& *genesis_config == inputs.genesis_config
            },
            GenesisStep::CreateAndInitializeValidators => {
                &&& action matches Action::CreateAndInitializeValidators { validators }
                &&& *validators == inputs.validators
            },
            GenesisStep::AllowCoreResourcesToSetVersion => action is AllowCoreResourcesToSetVersion,
            GenesisStep::SetGenesisEnd => action is SetGenesisEnd,
            GenesisStep::EmitNewBlockAndEpochEvent => action is EmitNewBlockAndEpochEvent,
            GenesisStep::PublishFramework => {
                &&& action matches Action::PublishFramework { framework }
                &&& *framework == inputs.framework
            },
        },
        Command::FinishSession(_) => {
            &&& action matches Action::FinishSession { gas_feature_version }
            &&& gas_feature_version == inputs.genesis_config.gas_feature_version
        },
    }
}

/// The action of a command. Opening a session seeds a state view of its
/// own from the framework, so that no session reads what another wrote.
pub fn action_for<'a>(inputs: &'a GenesisInputs, command: Command) -> (action: Action<'a>)
    ensures
        issues(inputs, command, action),
{
    match command {
        Command::OpenSession(phase) => Action::OpenSession {
            session_id: session_id(phase),
            state_view: GenesisStateView::seeded(&inputs.framework),
        },
        Command::Invoke(step) => match step {
            GenesisStep::Initialize => Action::Initialize { genesis_config: &inputs.genesis_config },
            GenesisStep::InitializeFeatures => Action::InitializeFeatures,
            GenesisStep::InitializeCoreResourcesAndAptosCoin => {
                Action::InitializeCoreResourcesAndAptosCoin {
                    core_resources_key: &inputs.core_resources_key,
                }
            },
            GenesisStep::InitializeAptosCoin => Action::InitializeAptosCoin,
            GenesisStep::InitializeOnChainGovernance => Action::InitializeOnChainGovernance {
                genesis_config: &inputs.genesis_config,
            },
            GenesisStep::CreateAndInitializeValidators => Action::CreateAndInitializeValidators {
                validators: &inputs.validators,
            },
            GenesisStep::AllowCoreResourcesToSetVersion => Action::AllowCoreResourcesToSetVersion,
            GenesisStep::SetGenesisEnd => Action::SetGenesisEnd,
            GenesisStep::EmitNewBlockAndEpochEvent => Action::EmitNewBlockAndEpochEvent,
            GenesisStep::PublishFramework => Action::PublishFramework {
                framework: &inputs.framework,
            },
        },
        Command::FinishSession(_) => Action::FinishSession {
            gas_feature_version: inputs.genesis_config.gas_feature_version,
        },
    }
}

/// The two sessions of a run read the same modules, each from a state
/// view of its own that holds nothing but the framework, and run under
/// identifiers that differ.
pub proof fn lemma_sessions_are_isolated(inputs: &GenesisInputs, first: Action, second: Action)
    requires
        issues(inputs, Command::OpenSession(SessionPhase::Initialization), first),
        issues(inputs, Command::OpenSession(SessionPhase::Publication), second),
    ensures
        first is OpenSession,
        second is OpenSession,
        first->state_view@ == modules_map(inputs.framework.modules@),
        second->state_view@ == modules_map(inputs.framework.modules@),
        first->session_id.hash@ != second->session_id.hash@,
{
    lemma_session_ids_distinct(SessionPhase::Initialization, SessionPhase::Publication);
}

/// The validators reach the engine as they were supplied: as many, and in
/// the same order.
pub proof fn lemma_validators_are_handed_through(inputs: &GenesisInputs, action: Action)
    requires
        issues(inputs, Command::Invoke(GenesisStep::CreateAndInitializeValidators), action),
    ensures
        action is CreateAndInitializeValidators,
        action->validators@.len() == inputs.validators@.len(),
        forall|i: int|
            0 <= i < inputs.validators@.len() ==> action->validators@[i] == inputs.validators@[i],
{
}

/// The failure of the engine during `command`.
pub open spec fn vm_failure(command: Command, failure: VmFailure) -> Outcome {
    Outcome::Failed { error: GenesisError::Vm(VmError { command, failure }) }
}

/// The step of a run. Any failure of the engine ends the run with the
/// command during which it came up. A reply that fits the pending command
/// moves the run to the next command of the plan; the change set of the
/// initialization session is kept on the way. The change set of the
/// publication session ends the run: with the merge of both, or with the
/// reason for which they do not merge.
pub open spec fn resume_spec(
    is_test: bool,
    position: nat,
    initialization: Option<ChangeSetView>,
    reply: ReplyView,
) -> Outcome {
    let command = plan(is_test)[position as int];
    match reply {
        ReplyView::Failed(status) => vm_failure(command, VmFailure::Status(status)),
        ReplyView::Completed => match command {
            Command::FinishSession(_) => vm_failure(command, VmFailure::ProtocolViolation),
            _ => Outcome::Next { position: position + 1, initialization },
        },
        ReplyView::SessionFinished(change_set) => match command {
            Command::FinishSession(SessionPhase::Initialization) => Outcome::Next {
                position: position + 1,
                initialization: Some(change_set),
            },
            Command::FinishSession(SessionPhase::Publication) => match initialization {
                Some(first) => match merge_spec(first, change_set) {
                    Ok(merged) => Outcome::Finished { change_set: merged },
                    Err(error) => Outcome::Failed { error: GenesisError::Merge(error) },
                },
                None => vm_failure(command, VmFailure::ProtocolViolation),
            },
            _ => vm_failure(command, VmFailure::ProtocolViolation),
        },
    }
}

/// Where a run that stands at `position` is after the engine has given
/// `replies`, one per action. A run that has ended stays as it ended.
pub open spec fn run(
    is_test: bool,
    position: nat,
    initialization: Option<ChangeSetView>,
    replies: Seq<ReplyView>,
) -> Outcome
    decreases replies.len(),
{
    if replies.len() == 0 {
        Outcome::Next { position, initialization }
    } else {
        match resume_spec(is_test, position, initialization, replies[0]) {
            Outcome::Next { position: next, initialization: kept } => run(
                is_test,
                next,
                kept,
                replies.drop_first(),
            ),
            ended => ended,
        }
    }
}

/// The replies of an engine that never fails: one per command of the plan,
/// with `first` as the change set of the initialization session and
/// `second` as that of the publication session.
pub open spec fn engine_replies(is_test: bool, first: ChangeSetView, second: ChangeSetView) -> Seq<
    ReplyView,
> {
    Seq::new(
        plan(is_test).len(),
        |i: int|
            match plan(is_test)[i] {
                Command::FinishSession(SessionPhase::Initialization) => ReplyView::SessionFinished(
                    first,
                ),
                Command::FinishSession(SessionPhase::Publication) => ReplyView::SessionFinished(
                    second,
                ),
                _ => ReplyView::Completed,
            },
    )
}

/// How a run ends once both sessions have handed out their change sets.
pub open spec fn merge_outcome(first: ChangeSetView, second: ChangeSetView) -> Outcome {
    match merge_spec(first, second) {
        Ok(change_set) => Outcome::Finished { change_set },
        Err(error) => Outcome::Failed { error: GenesisError::Merge(error) },
    }
}

/// From any place of the plan, a run whose engine never fails ends as the
/// merge of the two change sets does.
proof fn lemma_run_from(is_test: bool, position: nat, first: ChangeSetView, second: ChangeSetView)
    requires
        position < plan(is_test).len(),
    ensures
        run(
            is_test,
            position,
            if position >= publication_start(is_test) {
                Some(first)
            } else {
                None
            },
            engine_replies(is_test, first, second).skip(position as int),
        ) == merge_outcome(first, second),
    decreases plan(is_test).len() - position,
{
    lemma_plan_unfolded(is_test);
    let replies = engine_replies(is_test, first, second);
    let rest = replies.skip(position as int);
    assert(rest[0] == replies[position as int]);
    assert(rest.drop_first() =~= replies.skip(position as int + 1));
    if position + 1 < plan(is_test).len() {
        lemma_run_from(is_test, position + 1, first, second);
    }
}

/// A run whose every step succeeds ends as the merge of the change sets
/// of its two sessions does: with the merged change set, or with the
/// reason for which they do not merge.
pub proof fn lemma_successful_run(is_test: bool, first: ChangeSetView, second: ChangeSetView)
    ensures
        run(is_test, 0, None, engine_replies(is_test, first, second)) == merge_outcome(
            first,
            second,
        ),
{
    lemma_plan_unfolded(is_test);
    lemma_run_from(is_test, 0, first, second);
    assert(engine_replies(is_test, first, second).skip(0) =~= engine_replies(
        is_test,
        first,
        second,
    ));
}

/// Two runs of the same mode that get the same replies stand alike after
/// them: nothing but the replies of the engine decides how a run goes on.
pub proof fn lemma_run_is_deterministic(
    is_test: bool,
    replies: Seq<ReplyView>,
    again: Seq<ReplyView>,
)
    requires
        replies =~= again,
    ensures
        run(is_test, 0, None, replies) == run(is_test, 0, None, again),
{
}

/// A change set with which a run finishes satisfies the genesis
/// invariants: it deletes nothing, holds no delta, and announces exactly
/// one reconfiguration.
pub proof fn lemma_finished_is_genesis(
    is_test: bool,
    position: nat,
    initialization: Option<ChangeSetView>,
    reply: ReplyView,
)
    requires
        resume_spec(is_test, position, initialization, reply) is Finished,
    ensures
        genesis_invariants(resume_spec(is_test, position, initialization, reply)->change_set),
        !holds_deletion(resume_spec(is_test, position, initialization, reply)->change_set.writes),
        resume_spec(is_test, position, initialization, reply)->change_set.deltas.len() == 0,
        reconfiguration_count(
            resume_spec(is_test, position, initialization, reply)->change_set.events,
        ) == 1,
{
}

/// A failure of the engine ends the run at the pending command, whatever
/// the run has gathered so far, and no change set comes out.
pub proof fn lemma_engine_failure_ends_run(
    is_test: bool,
    position: nat,
    initialization: Option<ChangeSetView>,
    status: u64,
)
    ensures
        resume_spec(is_test, position, initialization, ReplyView::Failed(status)) == vm_failure(
            plan(is_test)[position as int],
            VmFailure::Status(status),
        ),
        !(resume_spec(is_test, position, initialization, ReplyView::Failed(status)) is Finished),
{
}

/// Starts a run. An invalid configuration ends it at once, with the first
/// rule that it breaks and before anything is built; a valid one yields
/// the first action of the plan.
pub fn begin<'a>(inputs: &'a GenesisInputs) -> (progress: Progress<'a>)
    ensures
        !config_valid(inputs.genesis_config) ==> (progress matches Progress::Failed {
            error: GenesisError::Configuration(rule),
        } && first_broken(inputs.genesis_config, rule)),
        config_valid(inputs.genesis_config) ==> (progress matches Progress::Next { state, action }
            && state.test_mode() == inputs.genesis_config.is_test && state.position() == 0
            && state.initialization() is None && issues(inputs, state.pending(), action)),
{
    match validate_genesis_config(&inputs.genesis_config) {
        Err(rule) => Progress::Failed { error: GenesisError::Configuration(rule) },
        Ok(()) => {
            let is_test = inputs.genesis_config.is_test;
            let commands = genesis_plan(is_test);
            proof {
                lemma_plan_unfolded(is_test);
            }
            let action = action_for(inputs, commands[0]);
            Progress::Next {
                state: GenesisState { is_test, commands, cursor: 0, initialization: None },
                action,
            }
        },
    }
}

/// Takes a run one step further with the reply to its pending action.
pub fn resume<'a>(inputs: &'a GenesisInputs, state: GenesisState, reply: Reply) -> (progress:
    Progress<'a>)
    ensures
        progress.outcome() == resume_spec(
            state.test_mode(),
            state.position(),
            state.initialization(),
            reply@,
        ),
        progress matches Progress::Next { state: next, action } ==> (next.test_mode()
            == state.test_mode() && next.position() < plan(next.test_mode()).len() && issues(
            inputs,
            next.pending(),
            action,
        )),
        progress matches Progress::Finished { change_set } ==> genesis_invariants(change_set@),
{
    proof {
        use_type_invariant(&state);
        lemma_plan_unfolded(state.is_test);
    }
    let GenesisState { is_test, commands, cursor, initialization } = state;
    let command = commands[cursor];
    match reply {
        Reply::Failed(status) => Progress::Failed {
            error: GenesisError::Vm(VmError { command, failure: VmFailure::Status(status) }),
        },
        Reply::Completed => match command {
            Command::FinishSession(_) => Progress::Failed {
                error: GenesisError::Vm(
                    VmError { command, failure: VmFailure::ProtocolViolation },
                ),
            },
            _ => {
                let action = action_for(inputs, commands[cursor + 1]);
                Progress::Next {
                    state: GenesisState { is_test, commands, cursor: cursor + 1, initialization },
                    action,
                }
            },
        },
        Reply::SessionFinished(change_set) => match command {
            Command::FinishSession(SessionPhase::Initialization) => {
                let action = action_for(inputs, commands[cursor + 1]);
                Progress::Next {
                    state: GenesisState {
                        is_test,
                        commands,
                        cursor: cursor + 1,
                        initialization: Some(change_set),
                    },
                    action,
                }
            },
            Command::FinishSession(SessionPhase::Publication) => match initialization {
                Some(first) => match merge(first, change_set) {
                    Ok(merged) => Progress::Finished { change_set: merged },
                    Err(error) => Progress::Failed { error: GenesisError::Merge(error) },
                },
                None => Progress::Failed {
                    error: GenesisError::Vm(
                        VmError { command, failure: VmFailure::ProtocolViolation },
                    ),
                },
            },
            _ => Progress::Failed {
                error: GenesisError::Vm(
                    VmError { command, failure: VmFailure::ProtocolViolation },
                ),
            },
        },
    }
}

/// How a finished run stands, as an outcome.
pub open spec fn result_outcome(result: Result<ChangeSet, GenesisError>) -> Outcome {
    match result {
        Ok(change_set) => Outcome::Finished { change_set: change_set@ },
        Err(error) => Outcome::Failed { error },
    }
}

/// One more reply takes a run that goes on one step further, and leaves a
/// run that has ended as it is.
pub proof fn lemma_run_step(
    is_test: bool,
    position: nat,
    initialization: Option<ChangeSetView>,
    replies: Seq<ReplyView>,
    reply: ReplyView,
)
    ensures
        run(is_test, position, initialization, replies.push(reply)) == match run(
            is_test,
            position,
            initialization,
            replies,
        ) {
            Outcome::Next { position: reached, initialization: kept } => resume_spec(
                is_test,
                reached,
                kept,
                reply,
            ),
            ended => ended,
        },
    decreases replies.len(),
{
    let longer = replies.push(reply);
    if replies.len() == 0 {
        assert(longer.drop_first() =~= Seq::<ReplyView>::empty());
        assert(longer[0] == reply);
        match resume_spec(is_test, position, initialization, reply) {
            Outcome::Next { position: next, initialization: kept } => {
                assert(run(is_test, next, kept, longer.drop_first()) == Outcome::Next {
                    position: next,
                    initialization: kept,
                });
            },
            _ => {},
        }
    } else {
        assert(longer[0] == replies[0]);
        assert(longer.drop_first() =~= replies.drop_first().push(reply));
        match resume_spec(is_test, position, initialization, replies[0]) {
            Outcome::Next { position: next, initialization: kept } => {
                lemma_run_step(is_test, next, kept, replies.drop_first(), reply);
            },
            _ => {},
        }
    }
}

/// What a sequence of replies holds.
pub open spec fn replies_view(replies: Seq<Reply>) -> Seq<ReplyView> {
    replies.map_values(|reply: Reply| reply@)
}

/// `reply` is an answer of `engine` to the action of `command`.
pub open spec fn answers<F: Fn(Action) -> Reply>(
    inputs: &GenesisInputs,
    engine: &F,
    command: Command,
    reply: Reply,
) -> bool {
    exists|action: Action| #[trigger]
        issues(inputs, command, action) && call_ensures(engine, (action,), reply)
}

/// `replies` are answers of `engine` to the actions of the plan, in the
/// order of the plan and from its start, and `result` is how the run ends
/// after them.
pub open spec fn made_by<F: Fn(Action) -> Reply>(
    inputs: &GenesisInputs,
    engine: &F,
    replies: Seq<Reply>,
    result: Outcome,
) -> bool {
    &&& 0 < replies.len() <= plan(inputs.genesis_config.is_test).len()
    &&& forall|i: int|
        0 <= i < replies.len() ==> answers(
            inputs,
            engine,
            plan(inputs.genesis_config.is_test)[i],
            #[trigger] replies[i],
        )
    &&& result == run(inputs.genesis_config.is_test, 0, None, replies_view(replies))
}

/// Builds the genesis change set with the help of `engine`, which performs
/// each action and answers with its reply. Nothing is asked of the engine
/// unless the configuration is valid. After that the engine is asked the
/// actions of the plan, in order and each at most once, until the run
/// ends; the result is what its answers make of the run. Whatever the
/// engine answers, a change set that comes out satisfies the genesis
/// invariants.
pub fn encode_libra_recovery_genesis_change_set<F: Fn(Action) -> Reply>(
    inputs: &GenesisInputs,
    engine: &F,
) -> (result: Result<ChangeSet, GenesisError>)
    requires
        forall|action: Action| call_requires(engine, (action,)),
    ensures
        !config_valid(inputs.genesis_config) ==> (result matches Err(
            GenesisError::Configuration(rule),
        ) && first_broken(inputs.genesis_config, rule)),
        config_valid(inputs.genesis_config) ==> exists|replies: Seq<Reply>| #[trigger]
            made_by(inputs, engine, replies, result_outcome(result)),
        result matches Ok(change_set) ==> genesis_invariants(change_set@),
{
    let ghost is_test = inputs.genesis_config.is_test;
    match begin(inputs) {
        Progress::Failed { error } => Err(error),
        Progress::Finished { change_set } => Ok(change_set),
        Progress::Next { state, action } => {
            let mut state = state;
            let mut action = action;
            let ghost mut replies: Seq<Reply> = Seq::empty();
            proof {
                assert(replies_view(replies) =~= Seq::<ReplyView>::empty());
            }
            loop
                invariant
                    forall|action: Action| call_requires(engine, (action,)),
                    config_valid(inputs.genesis_config),
                    is_test == inputs.genesis_config.is_test,
                    state.test_mode() == is_test,
                    state.position() < plan(is_test).len(),
                    replies.len() == state.position(),
                    issues(inputs, state.pending(), action),
                    forall|i: int|
                        0 <= i < replies.len() ==> answers(
                            inputs,
                            engine,
                            plan(is_test)[i],
                            #[trigger] replies[i],
                        ),
                    run(is_test, 0, None, replies_view(replies)) == (Outcome::Next {
                        position: state.position(),
                        initialization: state.initialization(),
                    }),
                decreases plan(is_test).len() - state.position(),
            {
                let ghost asked = action;
                let reply = engine(action);
                proof {
                    assert(issues(inputs, plan(is_test)[replies.len() as int], asked)
                        && call_ensures(engine, (asked,), reply));
                    assert(answers(inputs, engine, plan(is_test)[replies.len() as int], reply));
                    lemma_run_step(is_test, 0, None, replies_view(replies), reply@);
                    assert(replies_view(replies.push(reply)) =~= replies_view(replies).push(
                        reply@,
                    ));
                    replies = replies.push(reply);
                }
                match resume(inputs, state, reply) {
                    Progress::Next { state: next, action: following } => {
                        state = next;
                        action = following;
                    },
                    Progress::Finished { change_set } => {
                        proof {
                            assert(made_by(
                                inputs,
                                engine,
                                replies,
                                Outcome::Finished { change_set: change_set@ },
                            ));
                        }
                        return Ok(change_set);
                    },
                    Progress::Failed { error } => {
                        proof {
                            assert(made_by(inputs, engine, replies, Outcome::Failed { error }));
                        }
                        return Err(error);
                    },
                }
            }
        },
    }
}

/// How a finished mainnet genesis stands, as an outcome.
pub open spec fn mainnet_outcome(
    result: Result<(ChangeSet, Vec<Validator>), GenesisError>,
) -> Outcome {
    match result {
        Ok(built) => Outcome::Finished { change_set: built.0@ },
        Err(error) => Outcome::Failed { error },
    }
}

/// Builds the genesis change set of a mainnet from the defaults, for the
/// validators given and for the framework given, if one is, and hands the
/// validators back unchanged beside the change set.
pub fn libra_mainnet_genesis<F: Fn(Action) -> Reply>(
    validators: Vec<Validator>,
    framework_override: Option<FrameworkBundle>,
    defaults: MainnetDefaults,
    engine: &F,
) -> (result: Result<(ChangeSet, Vec<Validator>), GenesisError>)
    requires
        forall|action: Action| call_requires(engine, (action,)),
    ensures
        !config_valid(defaults.genesis_config) ==> (result matches Err(
            GenesisError::Configuration(rule),
        ) && first_broken(defaults.genesis_config, rule)),
        config_valid(defaults.genesis_config) ==> exists|replies: Seq<Reply>| #[trigger]
            made_by(
                &mainnet_inputs(validators, framework_override, defaults),
                engine,
                replies,
                mainnet_outcome(result),
            ),
        result matches Ok(built) ==> built.1 == validators && genesis_invariants(built.0@),
{
    let inputs = assemble_mainnet_inputs(validators, framework_override, defaults);
    match encode_libra_recovery_genesis_change_set(&inputs, engine) {
        Ok(change_set) => Ok((change_set, inputs.validators)),
        Err(error) => Err(error),
    }
}

} // verus!
