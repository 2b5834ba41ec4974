//! The vocabulary of the container runtime: port protocols and container
//! states, with the names they carry on the wire.

use bollard::models::ContainerStateStatusEnum;
use bollard::models::PortTypeEnum;
use std::str::FromStr;
use crate::text::join;
use vstd::prelude::*;

verus! {

/// The label that every container of this tool carries.
pub const BASELINE_LABEL: &'static str = "dgs";

/// What a label that stands for a tag begins with; the tag follows.
pub const TAG_LABEL_PREFIX: &'static str = "dgs-";

/// Seconds to wait for an answer of the runtime.
pub const TIME_OUT: u64 = 5;

/// The version of the runtime's interface that is spoken: major part.
pub const API_MAJOR: usize = 1;

/// The version of the runtime's interface that is spoken: minor part.
pub const API_MINOR: usize = 40;

/// Where the system-wide podman listens.
pub const PODMAN_SYSTEM_SOCKET: &'static str = "/var/run/podman/podman.sock";

/// Where a user's podman listens, below the user's runtime directory.
pub const PODMAN_USER_SOCKET: &'static str = "podman/podman.sock";

/// The runtime to talk to.
#[derive(Clone, Copy, Debug, PartialEq, Eq, Structural)]
pub enum Endpoint {
    /// The one that the machine is set up for.
    LocalDefaults,
    /// The system-wide podman.
    PodmanSystem,
    /// The user's own podman.
    PodmanUser,
}

impl Endpoint {
    /// The runtime that the operator has chosen: podman where exactly one
    /// of the two was asked for, else the machine's default.
    pub fn select(podman_system: bool, podman_user: bool) -> (r: Endpoint)
        ensures
            r == if podman_user && !podman_system {
                Endpoint::PodmanUser
            } else if podman_system && !podman_user {
                Endpoint::PodmanSystem
            } else {
                Endpoint::LocalDefaults
            },
    {
        match (podman_system, podman_user) {
            (false, true) => Endpoint::PodmanUser,
            (true, false) => Endpoint::PodmanSystem,
            _ => Endpoint::LocalDefaults,
        }
    }
}

/// What the operator is told when the runtime does not answer; `error` is
/// what the attempt to reach it failed with. Nothing else is tried then.
pub fn unreachable_message(error: &str) -> (r: String)
    ensures
        r@ == "Unable to connect with Docker: \n "@ + error@,
{
    join("Unable to connect with Docker: \n ", error)
}

/// Transport protocol of a port, as the runtime reports it.
#[derive(Clone, Copy, Debug, PartialEq, Eq, Structural)]
pub enum PortType {
    Empty,
    Tcp,
    Udp,
    Sctp,
}

/// Lifecycle state of a container, as the runtime reports it.
#[derive(Clone, Copy, Debug, PartialEq, Eq, Structural)]
pub enum ContainerState {
    Empty,
    Created,
    Running,
    Paused,
    Restarting,
    Removing,
    Exited,
    Dead,
}

impl PortType {
    /// The protocol's name on the wire.
    pub open spec fn wire_name(self) -> Seq<char> {
        match self {
            PortType::Empty => ""@,
            PortType::Tcp => "tcp"@,
            PortType::Udp => "udp"@,
            PortType::Sctp => "sctp"@,
        }
    }
}

impl ContainerState {
    /// The state's name on the wire.
    pub open spec fn wire_name(self) -> Seq<char> {
        match self {
            ContainerState::Empty => ""@,
            ContainerState::Created => "created"@,
            ContainerState::Running => "running"@,
            ContainerState::Paused => "paused"@,
            ContainerState::Restarting => "restarting"@,
            ContainerState::Removing => "removing"@,
            ContainerState::Exited => "exited"@,
            ContainerState::Dead => "dead"@,
        }
    }

    /// The state's name as it is shown to the operator.
    pub open spec fn display_name(self) -> Seq<char> {
        match self {
            ContainerState::Empty => "EMPTY"@,
            ContainerState::Created => "CREATED"@,
            ContainerState::Running => "RUNNING"@,
            ContainerState::Paused => "PAUSED"@,
            ContainerState::Restarting => "RESTARTING"@,
            ContainerState::Removing => "REMOVING"@,
            ContainerState::Exited => "EXITED"@,
            ContainerState::Dead => "DEAD"@,
        }
    }

    /// The state that a wire name stands for; `None` for any other text.
    pub open spec fn named(name: Seq<char>) -> Option<ContainerState> {
        if name == ContainerState::Empty.wire_name() {
            Some(ContainerState::Empty)
        } else if name == ContainerState::Created.wire_name() {
            Some(ContainerState::Created)
        } else if name == ContainerState::Running.wire_name() {
            Some(ContainerState::Running)
        } else if name == ContainerState::Paused.wire_name() {
            Some(ContainerState::Paused)
        } else if name == ContainerState::Restarting.wire_name() {
            Some(ContainerState::Restarting)
        } else if name == ContainerState::Removing.wire_name() {
            Some(ContainerState::Removing)
        } else if name == ContainerState::Exited.wire_name() {
            Some(ContainerState::Exited)
        } else if name == ContainerState::Dead.wire_name() {
            Some(ContainerState::Dead)
        } else {
            None
        }
    }
}

/// Calls `Display` of bollard's `PortTypeEnum`, which writes the variant's
/// wire name: nothing for `EMPTY`, else `tcp`, `udp` or `sctp`.
#[verifier::external_body]
pub(crate) fn port_type_text(t: PortType) -> (r: String)
    ensures
        r@ == t.wire_name(),
{
    let outside = match t {
        PortType::Empty => PortTypeEnum::EMPTY,
        PortType::Tcp => PortTypeEnum::TCP,
        PortType::Udp => PortTypeEnum::UDP,
        PortType::Sctp => PortTypeEnum::SCTP,
    };
    outside.to_string()
}

/// Calls `Display` of bollard's `ContainerStateStatusEnum`, which writes
/// the variant's wire name: nothing for `EMPTY`, else the variant's name in
/// lower case.
#[verifier::external_body]
pub(crate) fn state_text(s: ContainerState) -> (r: String)
    ensures
        r@ == s.wire_name(),
{
    let outside = match s {
        ContainerState::Empty => ContainerStateStatusEnum::EMPTY,
        ContainerState::Created => ContainerStateStatusEnum::CREATED,
        ContainerState::Running => ContainerStateStatusEnum::RUNNING,
        ContainerState::Paused => ContainerStateStatusEnum::PAUSED,
        ContainerState::Restarting => ContainerStateStatusEnum::RESTARTING,
        ContainerState::Removing => ContainerStateStatusEnum::REMOVING,
        ContainerState::Exited => ContainerStateStatusEnum::EXITED,
        ContainerState::Dead => ContainerStateStatusEnum::DEAD,
    };
    outside.to_string()
}

/// Calls the derived `Debug` of bollard's `ContainerStateStatusEnum`, which
/// writes the variant's identifier as it is declared, in upper case.
#[verifier::external_body]
pub(crate) fn state_display_text(s: ContainerState) -> (r: String)
    ensures
        r@ == s.display_name(),
{
    let outside = match s {
        ContainerState::Empty => ContainerStateStatusEnum::EMPTY,
        ContainerState::Created => ContainerStateStatusEnum::CREATED,
        ContainerState::Running => ContainerStateStatusEnum::RUNNING,
        ContainerState::Paused => ContainerStateStatusEnum::PAUSED,
        ContainerState::Restarting => ContainerStateStatusEnum::RESTARTING,
        ContainerState::Removing => ContainerStateStatusEnum::REMOVING,
        ContainerState::Exited => ContainerStateStatusEnum::EXITED,
        ContainerState::Dead => ContainerStateStatusEnum::DEAD,
    };
    format!("{:?}", outside)
}

/// Calls `FromStr` of bollard's `ContainerStateStatusEnum`, which accepts
/// exactly the eight wire names (the empty text among them) and fails on
/// every other text.
#[verifier::external_body]
pub(crate) fn parse_state(name: &str) -> (r: Option<ContainerState>)
    ensures
        r == ContainerState::named(name@),
{
    match ContainerStateStatusEnum::from_str(name) {
        Ok(ContainerStateStatusEnum::EMPTY) => Some(ContainerState::Empty),
        Ok(ContainerStateStatusEnum::CREATED) => Some(ContainerState::Created),
        Ok(ContainerStateStatusEnum::RUNNING) => Some(ContainerState::Running),
        Ok(ContainerStateStatusEnum::PAUSED) => Some(ContainerState::Paused),
        Ok(ContainerStateStatusEnum::RESTARTING) => Some(ContainerState::Restarting),
        Ok(ContainerStateStatusEnum::REMOVING) => Some(ContainerState::Removing),
        Ok(ContainerStateStatusEnum::EXITED) => Some(ContainerState::Exited),
        Ok(ContainerStateStatusEnum::DEAD) => Some(ContainerState::Dead),
        Err(_) => None,
    }
}

/// Whether a text is made of the letters `a` to `z` alone.
pub open spec fn is_lower_case_word(text: Seq<char>) -> bool {
    forall|i: int| 0 <= i < text.len() ==> 'a' <= #[trigger] text[i] <= 'z'
}

/// The wire name of every state is written in lower-case letters, and no
/// two states share one: a wire name stands for the state that it is the
/// name of.
pub proof fn law_wire_names(state: ContainerState)
    ensures
        is_lower_case_word(state.wire_name()),
        ContainerState::named(state.wire_name()) == Some(state),
{
    reveal_strlit("");
    reveal_strlit("created");
    reveal_strlit("running");
    reveal_strlit("paused");
    reveal_strlit("restarting");
    reveal_strlit("removing");
    reveal_strlit("exited");
    reveal_strlit("dead");
    assert(""@.len() == 0);
    assert("created"@.len() == 7 && "created"@[0] == 'c');
    assert("running"@.len() == 7 && "running"@[0] == 'r' && "running"@[1] == 'u');
    assert("paused"@.len() == 6 && "paused"@[0] == 'p');
    assert("restarting"@.len() == 10);
    assert("removing"@.len() == 8);
    assert("exited"@.len() == 6 && "exited"@[0] == 'e');
    assert("dead"@.len() == 4);
}

/// A text that is the wire name of a state is the wire name of that state
/// alone.
pub proof fn lemma_named_is_wire_name(name: Seq<char>, state: ContainerState)
    requires
        ContainerState::named(name) == Some(state),
    ensures
        name == state.wire_name(),
{
}

} // verus!
