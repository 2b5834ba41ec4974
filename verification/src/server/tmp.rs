//! Running a temporary server: what the runtime is asked to create, and
//! the order in which a run goes from the first request to the removal of
//! the container.

use crate::game::Game;
use crate::game::GameName;
use crate::game::PortConfiguration;
use crate::game::VersionConfiguration;
use crate::runtime::port_type_text;
use crate::runtime::PortType;
use crate::runtime::BASELINE_LABEL;
use crate::server::pull::PullError;
use crate::server::pull::PullRequest;
use crate::server::pull::REGISTRY;
use crate::text::decimal;
use crate::text::decimal_text;
use crate::text::join;
use chrono::Local;
use portpicker::pick_unused_port;
use vstd::prelude::*;
use vstd::string::*;

verus! {

/// What the name of every temporary container begins with.
pub const NAME_PREFIX: &'static str = "dgs-tmp";

/// How the time of creation is written into a container's name: date and
/// time of day down to the millisecond.
pub const TIMESTAMP_PATTERN: &'static str = "%Y-%m-%d_%H-%M-%S%.3f";

/// Calls portpicker's `pick_unused_port`, which tries ports picked at
/// random, then ports that the system offers, and gives `None` if none of
/// them was free. Which port comes back depends on chance and on the
/// machine, so nothing is said of it.
#[verifier::external_body]
fn pick_port() -> (r: Option<u16>) {
    pick_unused_port()
}

/// Calls chrono's `Local::now` and `DateTime::format`, and writes the
/// outcome to a string. Only the library's own pattern is admitted, which
/// chrono accepts; the text depends on the clock and on the time zone of
/// the machine, so nothing is said of it.
#[verifier::external_body]
fn local_time_text(pattern: &str) -> (r: String)
    requires
        pattern@ == TIMESTAMP_PATTERN@,
{
    Local::now().format(pattern).to_string()
}

/// What the operator may choose for a temporary server.
#[derive(Clone, Debug, PartialEq, Eq)]
pub struct GameOptions {
    /// The version of the game to run.
    pub version: Option<String>,
}

/// A temporary server to be run: the game and what was chosen for it.
#[derive(Clone, Debug, PartialEq, Eq)]
pub struct Tmp<'a> {
    pub game: &'a Game,
    pub options: GameOptions,
}

/// A container port published on a host port.
#[derive(Clone, Debug, PartialEq, Eq)]
pub struct PortBinding {
    /// The container port and its protocol, as the runtime names them:
    /// the number, a slash and the protocol.
    pub key: String,
    pub host_port: u16,
}

/// What the runtime is asked to create.
#[derive(Clone, Debug, PartialEq, Eq)]
pub struct CreateRequest {
    pub name: String,
    pub image: String,
    pub env: Vec<String>,
    pub port_bindings: Vec<PortBinding>,
    pub labels: Vec<(String, String)>,
}

/// A request to create, as plain values.
pub struct CreateRequestView {
    pub name: Seq<char>,
    pub image: Seq<char>,
    pub env: Seq<Seq<char>>,
    pub port_bindings: Seq<(Seq<char>, u16)>,
    pub labels: Seq<(Seq<char>, Seq<char>)>,
}

impl View for CreateRequest {
    type V = CreateRequestView;

    open spec fn view(&self) -> CreateRequestView {
        CreateRequestView {
            name: self.name@,
            image: self.image@,
            env: self.env.deep_view(),
            port_bindings: self.port_bindings@.map_values(
                |binding: PortBinding| (binding.key@, binding.host_port),
            ),
            labels: self.labels.deep_view(),
        }
    }
}

/// A step of a run that asks something of the runtime about a container.
#[derive(Clone, Copy, Debug, PartialEq, Eq, Structural)]
pub enum LifecycleStep {
    Create,
    Start,
    Stop,
    Remove,
}

/// Why a run failed.
#[derive(Clone, Debug, PartialEq, Eq)]
pub enum RunError {
    /// The game has a fixed set of ports; such a game cannot be run yet.
    UnsupportedPorts,
    /// No free port was found on the host.
    PortAllocation,
    /// The image could not be pulled.
    Pull(PullError),
    /// The runtime refused a step. The container is named where there is
    /// one, so that the operator can look after it.
    Step { step: LifecycleStep, handle: Option<String>, message: String },
}

/// What the operator is told while the server runs.
pub const PROMPT: &'static str = "Press any key to quit the server...";

impl RunError {
    /// What the operator is told of the failure: for a step that the
    /// runtime refused, what the runtime said, and the container where
    /// there is one.
    pub open spec fn message_text(self) -> Seq<char> {
        match self {
            RunError::UnsupportedPorts => "Games with a fixed set of ports cannot be run yet."@,
            RunError::PortAllocation => "Did not find any open port LUL."@,
            RunError::Pull(e) => e@,
            RunError::Step { step, handle: None, message } => message@,
            RunError::Step { step, handle: Some(handle), message } => message@ + " (container `"@
                + handle@ + "`)"@,
        }
    }

    /// What the operator is told of the failure.
    pub fn message(&self) -> (r: String)
        ensures
            r@ == self.message_text(),
    {
        match self {
            RunError::UnsupportedPorts => "Games with a fixed set of ports cannot be run yet.".to_owned(),
            RunError::PortAllocation => "Did not find any open port LUL.".to_owned(),
            RunError::Pull(PullError::StreamError(message)) => message.clone(),
            RunError::Step { step, handle: None, message } => message.clone(),
            RunError::Step { step, handle: Some(handle), message } => {
                let mut r = join(message.as_str(), " (container `");
                r.append(handle.as_str());
                r.append("`)");
                r
            },
        }
    }
}

/// How a container port and its protocol are named to the runtime.
pub open spec fn binding_key(port: u16, typ: PortType) -> Seq<char> {
    decimal(port as nat) + "/"@ + typ.wire_name()
}

/// The name of a temporary container of a game that is created at the
/// time that `timestamp` writes.
pub open spec fn container_name(game: GameName, timestamp: Seq<char>) -> Seq<char> {
    NAME_PREFIX@ + "_"@ + game.text() + "_"@ + timestamp
}

/// The environment assignment that carries the version asked for, where
/// the game takes its version from the environment and one was asked for.
pub open spec fn version_assignment(game: Game, options: GameOptions) -> Option<Seq<char>> {
    match (game.version.config, options.version) {
        (VersionConfiguration::Env(variable), Some(version)) => Some(
            variable@ + "="@ + version@,
        ),
        _ => None,
    }
}

/// The environment of a temporary container: the game's own assignments,
/// then the one that carries the version, where there is one.
pub open spec fn environment(game: Game, options: GameOptions) -> Seq<Seq<char>> {
    let fixed = game.envs@.map_values(|assignment: &'static str| assignment@);
    match version_assignment(game, options) {
        Some(assignment) => fixed.push(assignment),
        None => fixed,
    }
}

/// What the runtime is asked to create for a game with one port: the
/// container port is published on `host_port`, and the container carries
/// the label that every container of this tool carries.
pub open spec fn request_for(
    game: Game,
    options: GameOptions,
    port: u16,
    typ: PortType,
    host_port: u16,
    timestamp: Seq<char>,
) -> CreateRequestView {
    CreateRequestView {
        name: container_name(game.name, timestamp),
        image: game.image@,
        env: environment(game, options),
        port_bindings: seq![(binding_key(port, typ), host_port)],
        labels: seq![(BASELINE_LABEL@, BASELINE_LABEL@)],
    }
}

/// `request` is what the runtime is asked to create for the game, on some
/// host port and at some time.
pub open spec fn is_request_for(game: Game, options: GameOptions, request: CreateRequestView) -> bool {
    game.ports matches PortConfiguration::SinglePort(port, typ) && exists|
        host_port: u16,
        timestamp: Seq<char>,
    | #[trigger] request_for(game, options, port, typ, host_port, timestamp) == request
}

/// The pull that has to come before the container is created: that of the
/// version asked for, where the game takes its version from the image's
/// tag and one was asked for.
pub open spec fn needs_pull(game: Game, options: GameOptions) -> bool {
    game.version.config is Tag && options.version is Some
}

/// A host port that was free when it was looked for, to publish a
/// container port on. Fails where none was found; no second try is made.
pub fn allocate() -> (r: Result<u16, RunError>)
    ensures
        r matches Err(e) ==> e == RunError::PortAllocation,
{
    allocation(pick_port())
}

/// What a search for a free host port comes to: the port that it found,
/// or the failure of the allocation where it found none.
pub open spec fn allocated(picked: Option<u16>) -> Result<u16, RunError> {
    match picked {
        Some(host_port) => Ok(host_port),
        None => Err(RunError::PortAllocation),
    }
}

/// What a search for a free host port comes to, given what it found.
pub fn allocation(picked: Option<u16>) -> (r: Result<u16, RunError>)
    ensures
        r == allocated(picked),
{
    match picked {
        Some(host_port) => Ok(host_port),
        None => Err(RunError::PortAllocation),
    }
}

/// What the operator is told of the host port that a server listens on.
pub fn port_announcement(host_port: u16) -> (r: String)
    ensures
        r@ == "Running on Port: `"@ + decimal(host_port as nat) + "`"@,
{
    let mut r = join("Running on Port: `", decimal_text(host_port as u64).as_str());
    r.append("`");
    r
}

impl<'a> Tmp<'a> {
    /// What the runtime is asked to pull before the container is created,
    /// if anything.
    pub fn pull_request(&self) -> (r: Option<PullRequest>)
        ensures
            r is Some <==> needs_pull(*self.game, self.options),
            r matches Some(request) ==> request.image@ == self.game.image@ && request.repo@
                == REGISTRY@ && request.tag@ == self.options.version->0@,
    {
        match (&self.game.version.config, &self.options.version) {
            (VersionConfiguration::Tag, Some(version)) => Some(
                PullRequest {
                    image: self.game.image.to_owned(),
                    repo: REGISTRY.to_owned(),
                    tag: version.clone(),
                },
            ),
            _ => None,
        }
    }

    /// The environment of the container.
    pub fn environment(&self) -> (r: Vec<String>)
        ensures
            r.deep_view() == environment(*self.game, self.options),
    {
        let mut env: Vec<String> = Vec::new();
        let n = self.game.envs.len();
        let mut i: usize = 0;
        while i < n
            invariant
                i <= n,
                n == self.game.envs@.len(),
                env@.len() == i,
                forall|k: int| 0 <= k < i ==> (#[trigger] env@[k])@ == self.game.envs@[k]@,
            decreases n - i,
        {
            env.push(self.game.envs[i].to_owned());
            i += 1;
        }
        match (&self.game.version.config, &self.options.version) {
            (VersionConfiguration::Env(variable), Some(version)) => {
                let mut assignment = join(variable, "=");
                assignment.append(version.as_str());
                env.push(assignment);
            },
            _ => {},
        }
        assert(env.deep_view() =~= environment(*self.game, self.options));
        env
    }

    /// What the runtime is asked to create, given the host port to
    /// publish on and the time of creation as it is to be written.
    pub fn create_request(&self, host_port: u16, timestamp: &str) -> (r: Result<
        CreateRequest,
        RunError,
    >)
        ensures
            match self.game.ports {
                PortConfiguration::SinglePort(port, typ) => r matches Ok(request) && request@
                    == request_for(*self.game, self.options, port, typ, host_port, timestamp@),
                PortConfiguration::NonConfigurable(_) => r matches Err(RunError::UnsupportedPorts),
            },
    {
        match self.game.ports {
            PortConfiguration::NonConfigurable(_) => Err(RunError::UnsupportedPorts),
            PortConfiguration::SinglePort(port, typ) => {
                let mut key = join(decimal_text(port as u64).as_str(), "/");
                key.append(port_type_text(typ).as_str());
                let mut port_bindings: Vec<PortBinding> = Vec::new();
                port_bindings.push(PortBinding { key, host_port });
                let mut name = join(NAME_PREFIX, "_");
                name.append(self.game.name.as_str());
                name.append("_");
                name.append(timestamp);
                let mut labels: Vec<(String, String)> = Vec::new();
                labels.push((BASELINE_LABEL.to_owned(), BASELINE_LABEL.to_owned()));
                let request = CreateRequest {
                    name,
                    image: self.game.image.to_owned(),
                    env: self.environment(),
                    port_bindings,
                    labels,
                };
                proof {
                    let expected = request_for(
                        *self.game,
                        self.options,
                        port,
                        typ,
                        host_port,
                        timestamp@,
                    );
                    assert(request@.name =~= expected.name);
                    assert(request@.port_bindings =~= expected.port_bindings);
                    assert(request@.labels =~= expected.labels);
                }
                Ok(request)
            },
        }
    }

    /// What the runtime is asked to create now: takes a free host port and
    /// reads the clock. Fails for a game with a fixed set of
    /// ports, and where no port is free.
    pub fn prepare_create(&self) -> (r: Result<CreateRequest, RunError>)
        ensures
            match r {
                Ok(request) => is_request_for(*self.game, self.options, request@),
                Err(RunError::UnsupportedPorts) => self.game.ports is NonConfigurable,
                Err(RunError::PortAllocation) => self.game.ports is SinglePort,
                Err(_) => false,
            },
    {
        match self.game.ports {
            PortConfiguration::NonConfigurable(_) => Err(RunError::UnsupportedPorts),
            PortConfiguration::SinglePort(_, _) => {
                match allocate() {
                    Err(e) => Err(e),
                    Ok(host_port) => {
                        let timestamp = local_time_text(TIMESTAMP_PATTERN);
                        self.create_request(host_port, timestamp.as_str())
                    },
                }
            },
        }
    }
}

/// How far a run has come.
#[derive(Clone, Debug, PartialEq, Eq)]
pub enum RunState {
    /// Nothing has been asked for yet.
    Idle,
    /// The image is being pulled.
    Pulling,
    /// The request to create is being put together.
    Preparing,
    /// The runtime has been asked to create the container.
    Creating,
    /// The container exists and the runtime has been asked to start it.
    Created { handle: String },
    /// The container runs and the operator is being told how to end it.
    Started { handle: String },
    /// The container runs until the operator ends it.
    AwaitingInterrupt { handle: String },
    /// The runtime has been asked to stop the container.
    Stopping { handle: String },
    /// The runtime has been asked to remove the container, after a stop
    /// that failed with `stop_error` where that is some.
    Removing { handle: String, stop_error: Option<String> },
    /// The container is gone, and neither the stop nor the removal failed:
    /// the run has ended as it should.
    Removed,
    /// The run has failed.
    Failed { error: RunError },
}

/// What has happened since the last action.
#[derive(Debug, PartialEq, Eq)]
pub enum Event {
    /// The run is to begin, after the given pull if there is one.
    Begin(Option<PullRequest>),
    PullFinished(Result<(), PullError>),
    Prepared(Result<CreateRequest, RunError>),
    /// The runtime has created the container of this handle, or has
    /// refused with this message.
    CreateFinished(Result<String, String>),
    StartFinished(Result<(), String>),
    /// The operator has been told how to end the server.
    Prompted,
    /// The operator has ended the server.
    Interrupted,
    StopFinished(Result<(), String>),
    RemoveFinished(Result<(), String>),
}

/// What is to be done next.
#[derive(Clone, Debug, PartialEq, Eq)]
pub enum Action {
    Pull(PullRequest),
    /// Put the request to create together.
    Prepare,
    Create(CreateRequest),
    Start(String),
    /// Tell the operator how to end the server.
    Prompt,
    /// Wait until the operator ends the server.
    AwaitInterrupt,
    Stop(String),
    Remove(String),
    /// Nothing: the run has ended.
    Finish,
    /// Nothing new: the event was not the one awaited.
    Ignore,
}

/// The failure of a stop, kept until the container has been removed.
pub open spec fn failure_of(outcome: Result<(), String>) -> Option<String> {
    match outcome {
        Ok(_) => None,
        Err(message) => Some(message),
    }
}

/// The state that follows on an event, and what is to be done then. A
/// run that has ended stays as it is; so does any other on an event that
/// it does not await. A stop that failed does not keep the container from
/// being removed, but the run then ends as failed: with the failure of the
/// removal where that failed too, else with that of the stop.
pub open spec fn next(state: RunState, event: Event) -> (RunState, Action) {
    match (state, event) {
        (RunState::Removed, _) => (state, Action::Finish),
        (RunState::Failed { .. }, _) => (state, Action::Finish),
        (RunState::Idle, Event::Begin(Some(request))) => (RunState::Pulling, Action::Pull(request)),
        (RunState::Idle, Event::Begin(None)) => (RunState::Preparing, Action::Prepare),
        (RunState::Pulling, Event::PullFinished(Ok(_))) => (RunState::Preparing, Action::Prepare),
        (RunState::Pulling, Event::PullFinished(Err(e))) => (
            RunState::Failed { error: RunError::Pull(e) },
            Action::Finish,
        ),
        (RunState::Preparing, Event::Prepared(Ok(request))) => (
            RunState::Creating,
            Action::Create(request),
        ),
        (RunState::Preparing, Event::Prepared(Err(error))) => (
            RunState::Failed { error },
            Action::Finish,
        ),
        (RunState::Creating, Event::CreateFinished(Ok(handle))) => (
            RunState::Created { handle },
            Action::Start(handle),
        ),
        (RunState::Creating, Event::CreateFinished(Err(message))) => (
            RunState::Failed {
                error: RunError::Step { step: LifecycleStep::Create, handle: None, message },
            },
            Action::Finish,
        ),
        (RunState::Created { handle }, Event::StartFinished(Ok(_))) => (
            RunState::Started { handle },
            Action::Prompt,
        ),
        (RunState::Created { handle }, Event::StartFinished(Err(message))) => (
            RunState::Failed {
                error: RunError::Step { step: LifecycleStep::Start, handle: Some(handle), message },
            },
            Action::Finish,
        ),
        (RunState::Started { handle }, Event::Prompted) => (
            RunState::AwaitingInterrupt { handle },
            Action::AwaitInterrupt,
        ),
        (RunState::AwaitingInterrupt { handle }, Event::Interrupted) => (
            RunState::Stopping { handle },
            Action::Stop(handle),
        ),
        (RunState::Stopping { handle }, Event::StopFinished(outcome)) => (
            RunState::Removing { handle, stop_error: failure_of(outcome) },
            Action::Remove(handle),
        ),
        (RunState::Removing { handle, stop_error: None }, Event::RemoveFinished(Ok(_))) => (
            RunState::Removed,
            Action::Finish,
        ),
        (RunState::Removing { handle, stop_error: Some(message) }, Event::RemoveFinished(Ok(_))) => (
            RunState::Failed {
                error: RunError::Step { step: LifecycleStep::Stop, handle: Some(handle), message },
            },
            Action::Finish,
        ),
        (RunState::Removing { handle, stop_error }, Event::RemoveFinished(Err(message))) => (
            RunState::Failed {
                error: RunError::Step { step: LifecycleStep::Remove, handle: Some(handle), message },
            },
            Action::Finish,
        ),
        _ => (state, Action::Ignore),
    }
}

/// Takes a run one event further.
pub fn step(state: RunState, event: Event) -> (r: (RunState, Action))
    ensures
        r == next(state, event),
{
    match (state, event) {
        (RunState::Removed, _) => (RunState::Removed, Action::Finish),
        (RunState::Failed { error }, _) => (RunState::Failed { error }, Action::Finish),
        (RunState::Idle, Event::Begin(Some(request))) => (RunState::Pulling, Action::Pull(request)),
        (RunState::Idle, Event::Begin(None)) => (RunState::Preparing, Action::Prepare),
        (RunState::Pulling, Event::PullFinished(Ok(_))) => (RunState::Preparing, Action::Prepare),
        (RunState::Pulling, Event::PullFinished(Err(e))) => (
            RunState::Failed { error: RunError::Pull(e) },
            Action::Finish,
        ),
        (RunState::Preparing, Event::Prepared(Ok(request))) => (
            RunState::Creating,
            Action::Create(request),
        ),
        (RunState::Preparing, Event::Prepared(Err(error))) => (
            RunState::Failed { error },
            Action::Finish,
        ),
        (RunState::Creating, Event::CreateFinished(Ok(handle))) => {
            let started = handle.clone();
            (RunState::Created { handle }, Action::Start(started))
        },
        (RunState::Creating, Event::CreateFinished(Err(message))) => (
            RunState::Failed {
                error: RunError::Step { step: LifecycleStep::Create, handle: None, message },
            },
            Action::Finish,
        ),
        (RunState::Created { handle }, Event::StartFinished(Ok(_))) => (
            RunState::Started { handle },
            Action::Prompt,
        ),
        (RunState::Created { handle }, Event::StartFinished(Err(message))) => (
            RunState::Failed {
                error: RunError::Step { step: LifecycleStep::Start, handle: Some(handle), message },
            },
            Action::Finish,
        ),
        (RunState::Started { handle }, Event::Prompted) => (
            RunState::AwaitingInterrupt { handle },
            Action::AwaitInterrupt,
        ),
        (RunState::AwaitingInterrupt { handle }, Event::Interrupted) => {
            let stopped = handle.clone();
            (RunState::Stopping { handle }, Action::Stop(stopped))
        },
        (RunState::Stopping { handle }, Event::StopFinished(outcome)) => {
            let removed = handle.clone();
            let stop_error = match outcome {
                Ok(_) => None,
                Err(message) => Some(message),
            };
            (RunState::Removing { handle, stop_error }, Action::Remove(removed))
        },
        (RunState::Removing { handle, stop_error: None }, Event::RemoveFinished(Ok(_))) => (
            RunState::Removed,
            Action::Finish,
        ),
        (RunState::Removing { handle, stop_error: Some(message) }, Event::RemoveFinished(Ok(_))) => (
            RunState::Failed {
                error: RunError::Step { step: LifecycleStep::Stop, handle: Some(handle), message },
            },
            Action::Finish,
        ),
        (RunState::Removing { handle, stop_error }, Event::RemoveFinished(Err(message))) => (
            RunState::Failed {
                error: RunError::Step { step: LifecycleStep::Remove, handle: Some(handle), message },
            },
            Action::Finish,
        ),
        (state, _) => (state, Action::Ignore),
    }
}

impl<'a> Tmp<'a> {
    /// Begins the run: with the pull where one has to come first, else
    /// with the request to create.
    pub fn begin(&self) -> (r: (RunState, Action))
        ensures
            needs_pull(*self.game, self.options) ==> r.0 is Pulling,
            needs_pull(*self.game, self.options) ==> (r.1 matches Action::Pull(request)
                && request.image@ == self.game.image@ && request.repo@ == REGISTRY@ && request.tag@
                == self.options.version->0@),
            !needs_pull(*self.game, self.options) ==> r == (RunState::Preparing, Action::Prepare),
            exists|pull: Option<PullRequest>| r == #[trigger] next(RunState::Idle, Event::Begin(pull)),
    {
        let pull = self.pull_request();
        let r = step(RunState::Idle, Event::Begin(pull));
        assert(r == next(RunState::Idle, Event::Begin(pull)));
        r
    }
}

/// The state of a run that began in `state` and has seen `events`.
pub open spec fn state_after(state: RunState, events: Seq<Event>) -> RunState
    decreases events.len(),
{
    if events.len() == 0 {
        state
    } else {
        next(state_after(state, events.drop_last()), events.last()).0
    }
}

/// What a run that began in `state` was to do on the event at position
/// `at` of `events`.
pub open spec fn action_at(state: RunState, events: Seq<Event>, at: int) -> Action {
    next(state_after(state, events.take(at)), events[at]).1
}

/// Whether the runtime has been asked to remove the container, or the run
/// has ended.
pub open spec fn is_past_stop(state: RunState) -> bool {
    state is Removing || state is Removed || state is Failed
}

/// The state after one event more is the one that follows on that event.
pub proof fn lemma_state_after_step(state: RunState, events: Seq<Event>, at: int)
    requires
        0 <= at < events.len(),
    ensures
        state_after(state, events.take(at + 1)) == next(
            state_after(state, events.take(at)),
            events[at],
        ).0,
{
    let longer = events.take(at + 1);
    assert(longer.drop_last() =~= events.take(at));
    assert(longer.last() == events[at]);
}

/// A run in which the runtime has been asked to stop the container has
/// been told to ask so.
proof fn lemma_stopping_was_asked(events: Seq<Event>, upto: int)
    requires
        0 <= upto <= events.len(),
        state_after(RunState::Idle, events.take(upto)) is Stopping,
    ensures
        exists|at: int|
            0 <= at < upto && #[trigger] action_at(RunState::Idle, events, at) == Action::Stop(
                state_after(RunState::Idle, events.take(upto))->Stopping_handle,
            ),
    decreases upto,
{
    if upto == 0 {
        assert(events.take(0) =~= Seq::<Event>::empty());
    } else {
        lemma_state_after_step(RunState::Idle, events, upto - 1);
        let before = state_after(RunState::Idle, events.take(upto - 1));
        if before is Stopping {
            lemma_stopping_was_asked(events, upto - 1);
            let at = choose|at: int|
                0 <= at < upto - 1 && #[trigger] action_at(RunState::Idle, events, at)
                    == Action::Stop(before->Stopping_handle);
            assert(action_at(RunState::Idle, events, at) == Action::Stop(
                state_after(RunState::Idle, events.take(upto))->Stopping_handle,
            ));
        } else {
            assert(action_at(RunState::Idle, events, upto - 1) == Action::Stop(
                state_after(RunState::Idle, events.take(upto))->Stopping_handle,
            ));
        }
    }
}

/// Once the runtime has been asked to remove the container, a run does
/// not come back to where it was before.
proof fn lemma_past_stop_stays(events: Seq<Event>, from: int, upto: int)
    requires
        0 <= from <= upto <= events.len(),
        is_past_stop(state_after(RunState::Idle, events.take(from))),
    ensures
        is_past_stop(state_after(RunState::Idle, events.take(upto))),
    decreases upto - from,
{
    if from < upto {
        lemma_past_stop_stays(events, from, upto - 1);
        lemma_state_after_step(RunState::Idle, events, upto - 1);
    }
}

/// Whenever a run is told to remove a container, it has been told before
/// to stop that container.
pub proof fn law_stop_precedes_remove(events: Seq<Event>, at: int)
    requires
        0 <= at < events.len(),
        action_at(RunState::Idle, events, at) is Remove,
    ensures
        exists|before: int|
            0 <= before < at && #[trigger] action_at(RunState::Idle, events, before)
                == Action::Stop(action_at(RunState::Idle, events, at)->Remove_0),
{
    lemma_stopping_was_asked(events, at);
}

/// A run is told to remove its container once stopping has been tried,
/// whether or not the stop succeeded.
pub proof fn law_remove_follows_stop(handle: String, outcome: Result<(), String>)
    ensures
        next(RunState::Stopping { handle }, Event::StopFinished(outcome)) == (
            RunState::Removing { handle, stop_error: failure_of(outcome) },
            Action::Remove(handle),
        ),
{
}

/// A stop that failed is not passed over: once the container has been
/// removed the run ends as failed with the failure of the stop, and where
/// the removal fails too, with the failure of the removal. Either way the
/// container is named.
pub proof fn law_failed_stop_fails_run(handle: String, message: String, removal: Result<(), String>)
    ensures
        next(
            RunState::Removing { handle, stop_error: Some(message) },
            Event::RemoveFinished(removal),
        ) == (
            RunState::Failed {
                error: match removal {
                    Ok(_) => RunError::Step {
                        step: LifecycleStep::Stop,
                        handle: Some(handle),
                        message,
                    },
                    Err(last) => RunError::Step {
                        step: LifecycleStep::Remove,
                        handle: Some(handle),
                        message: last,
                    },
                },
            },
            Action::Finish,
        ),
{
}

/// A run ends as it should only where the stop and the removal both
/// succeeded.
pub proof fn law_removed_without_failure(state: RunState, event: Event)
    requires
        !(state is Removed),
        next(state, event).0 is Removed,
    ensures
        state matches RunState::Removing { stop_error: None, .. },
        event matches Event::RemoveFinished(Ok(_)),
{
}

/// Whether a run cannot end as it should any more: the stop has failed,
/// or the run has failed.
pub open spec fn is_beyond_success(state: RunState) -> bool {
    state is Failed || state matches RunState::Removing { stop_error: Some(_), .. }
}

/// A run that cannot end as it should any more stays so.
proof fn lemma_beyond_success_stays(events: Seq<Event>, from: int, upto: int)
    requires
        0 <= from <= upto <= events.len(),
        is_beyond_success(state_after(RunState::Idle, events.take(from))),
    ensures
        is_beyond_success(state_after(RunState::Idle, events.take(upto))),
    decreases upto - from,
{
    if from < upto {
        lemma_beyond_success_stays(events, from, upto - 1);
        lemma_state_after_step(RunState::Idle, events, upto - 1);
    }
}

/// A run in which the stop failed does not end as one that went as it
/// should, whatever comes after the failure.
pub proof fn law_failed_stop_is_reported(events: Seq<Event>, at: int)
    requires
        0 <= at < events.len(),
        state_after(RunState::Idle, events.take(at)) is Stopping,
        events[at] matches Event::StopFinished(Err(_)),
    ensures
        !(state_after(RunState::Idle, events) is Removed),
        is_beyond_success(state_after(RunState::Idle, events)),
{
    lemma_state_after_step(RunState::Idle, events, at);
    lemma_beyond_success_stays(events, at + 1, events.len() as int);
    assert(events.take(events.len() as int) =~= events);
}

/// A run is told at most once to remove its container.
pub proof fn law_remove_at_most_once(events: Seq<Event>, first: int, second: int)
    requires
        0 <= first < second < events.len(),
        action_at(RunState::Idle, events, first) is Remove,
    ensures
        !(action_at(RunState::Idle, events, second) is Remove),
{
    lemma_state_after_step(RunState::Idle, events, first);
    lemma_past_stop_stays(events, first + 1, second);
}

/// A run is told to pull only when it begins, and only where a pull was
/// asked for.
pub proof fn law_pull_only_at_begin(state: RunState, event: Event)
    requires
        next(state, event).1 is Pull,
    ensures
        state is Idle,
        event matches Event::Begin(Some(request)) && next(state, event).1 == Action::Pull(request),
{
}

/// A run is told to create the container only once the request has been
/// put together, and to start it only once it has been created.
pub proof fn law_create_and_start_in_order(state: RunState, event: Event)
    ensures
        next(state, event).1 is Create ==> state is Preparing && event is Prepared,
        next(state, event).1 is Start ==> state is Creating && event is CreateFinished,
        next(state, event).1 is Prepare ==> state is Idle || state is Pulling,
{
}

/// Once a run has failed, nothing more is asked of the runtime. A failure
/// of the pull, of the request to create, of the creation or of the start
/// ends the run at once, and a container that did not start is left as it
/// is.
pub proof fn law_failure_ends_run(state: RunState, event: Event)
    requires
        !(state is Failed),
        next(state, event).0 is Failed,
    ensures
        next(state, event).1 is Finish,
        forall|later: Event| #[trigger]
            next(next(state, event).0, later) == (next(state, event).0, Action::Finish),
{
}

} // verus!
