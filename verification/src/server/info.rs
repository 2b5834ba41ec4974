//! What the runtime reports of a container, and the server that such a
//! report describes.

use crate::game::bare_image;
use crate::game::image_index;
use crate::game::Catalog;
use crate::game::Game;
use crate::game::GameName;
use crate::runtime::parse_state;
use crate::runtime::port_type_text;
use crate::runtime::state_display_text;
use crate::runtime::ContainerState;
use crate::runtime::PortType;
use crate::runtime::TAG_LABEL_PREFIX;
use crate::text::bracketed_list;
use crate::text::comma_separated;
use crate::text::debug_form;
use crate::text::debug_text;
use crate::text::decimal;
use crate::text::decimal_text;
use crate::text::starts_with;
use crate::text::starts_with_char;
use vstd::prelude::*;
use vstd::string::*;

verus! {

/// A container's port as the runtime reports it: any part but the
/// container's own port number may be missing.
#[derive(Clone, Copy, Debug, PartialEq, Eq)]
pub struct RawPort {
    pub private_port: i64,
    pub public_port: Option<i64>,
    pub typ: Option<PortType>,
}

/// A container as the runtime's list reports it. Nothing in it is taken
/// for granted.
#[derive(Clone, Debug, PartialEq, Eq)]
pub struct RuntimeContainerRecord {
    pub image: Option<String>,
    pub names: Option<Vec<String>>,
    /// The labels, each with its value, in the order in which they were
    /// reported. The runtime reports no label twice (`distinct_labels`);
    /// the tags of the server are then a set. A label that does occur
    /// twice gives its tag twice.
    pub labels: Option<Vec<(String, String)>>,
    pub ports: Option<Vec<RawPort>>,
    pub state: Option<String>,
}

/// A published port of a server.
#[derive(Clone, Copy, Debug, PartialEq, Eq, Structural)]
pub struct Port {
    /// The port on the host.
    pub public: u16,
    /// The port in the container.
    pub private: u16,
    pub typ: PortType,
}

/// Why a reported port is no published port.
#[derive(Clone, Copy, Debug, PartialEq, Eq, Structural)]
pub enum PortError {
    /// The host port or the protocol is missing.
    Unpublished,
    /// A port number is not one of 0 to 65535.
    OutOfRange,
}

/// Why a report describes no server.
#[derive(Clone, Copy, Debug, PartialEq, Eq, Structural)]
pub enum ProjectionError {
    /// The image, the names, the labels, the ports or the state is missing.
    Incomplete,
    /// The container has no name, or more than one.
    NameCount,
    /// The state is none that the runtime is known to report.
    InvalidState,
    /// The image is that of no game.
    UnknownImage,
    /// A published port has a number that is no port number.
    PortOutOfRange,
}

/// A server: a container that runs a game.
#[derive(Clone, Debug, PartialEq, Eq)]
pub struct ServerInfo {
    pub name: String,
    pub game: GameName,
    pub tags: Vec<String>,
    pub ports: Vec<Port>,
    pub state: ContainerState,
}

/// A server as plain values.
pub struct ServerInfoView {
    pub name: Seq<char>,
    pub game: GameName,
    pub tags: Seq<Seq<char>>,
    pub ports: Seq<Port>,
    pub state: ContainerState,
}

impl View for ServerInfo {
    type V = ServerInfoView;

    open spec fn view(&self) -> ServerInfoView {
        ServerInfoView {
            name: self.name@,
            game: self.game,
            tags: self.tags.deep_view(),
            ports: self.ports@,
            state: self.state,
        }
    }
}

/// Whether a number is a port number.
pub open spec fn is_port_number(n: int) -> bool {
    0 <= n <= 65535
}

/// The published port that a reported port stands for.
pub open spec fn published_port(raw: RawPort) -> Result<Port, PortError> {
    match (raw.public_port, raw.typ) {
        (Some(public), Some(typ)) => if is_port_number(public as int) && is_port_number(
            raw.private_port as int,
        ) {
            Ok(Port { public: public as u16, private: raw.private_port as u16, typ })
        } else {
            Err(PortError::OutOfRange)
        },
        _ => Err(PortError::Unpublished),
    }
}

/// The published ports among the reported ones, in their order.
pub open spec fn published_ports(raw: Seq<RawPort>) -> Seq<Port>
    decreases raw.len(),
{
    if raw.len() == 0 {
        Seq::empty()
    } else {
        match published_port(raw.last()) {
            Ok(port) => published_ports(raw.drop_last()).push(port),
            Err(_) => published_ports(raw.drop_last()),
        }
    }
}

/// Whether one of the reported ports is published under a number that is
/// no port number.
pub open spec fn has_unrepresentable_port(raw: Seq<RawPort>) -> bool {
    exists|i: int| 0 <= i < raw.len() && #[trigger] published_port(raw[i]) == Err::<Port, PortError>(
        PortError::OutOfRange,
    )
}

/// The tag that a label stands for, if it stands for one.
pub open spec fn tag_of_label(label: Seq<char>) -> Option<Seq<char>> {
    if TAG_LABEL_PREFIX@.is_prefix_of(label) {
        Some(label.skip(TAG_LABEL_PREFIX@.len() as int))
    } else {
        None
    }
}

/// No label occurs twice.
pub open spec fn distinct_labels(labels: Seq<(String, String)>) -> bool {
    forall|i: int, j: int|
        0 <= i < j < labels.len() ==> (#[trigger] labels[i]).0@ != (#[trigger] labels[j]).0@
}

impl RuntimeContainerRecord {
    /// The report names no label twice. This holds of every report that
    /// is made from a map of labels.
    pub open spec fn has_distinct_labels(self) -> bool {
        self.labels matches Some(labels) ==> distinct_labels(labels@)
    }
}

/// The tags that the labels stand for, in the order of the labels: one
/// for each label that stands for a tag, so that no tag occurs twice where
/// no label does.
pub open spec fn tags_of(labels: Seq<(String, String)>) -> Seq<Seq<char>>
    decreases labels.len(),
{
    if labels.len() == 0 {
        Seq::empty()
    } else {
        match tag_of_label(labels.last().0@) {
            Some(tag) => tags_of(labels.drop_last()).push(tag),
            None => tags_of(labels.drop_last()),
        }
    }
}

/// The name under which a container is shown: its name without the slash
/// that the runtime puts before it.
pub open spec fn display_name(name: Seq<char>) -> Seq<char> {
    if name.len() > 0 && name[0] == '/' {
        name.skip(1)
    } else {
        name
    }
}

/// The server that a report describes, or why it describes none. The
/// reasons are looked for in the order in which `ProjectionError` lists
/// them. The tags are those of the labels, in their order; they are a set
/// where the report names no label twice (`has_distinct_labels`), and
/// hold a tag as often as its label was reported where it does.
pub open spec fn projection(record: RuntimeContainerRecord, games: Seq<Game>) -> Result<
    ServerInfoView,
    ProjectionError,
> {
    match (record.image, record.names, record.labels, record.ports, record.state) {
        (Some(image), Some(names), Some(labels), Some(ports), Some(state)) => {
            if names@.len() != 1 {
                Err(ProjectionError::NameCount)
            } else {
                match (ContainerState::named(state@), image_index(games, bare_image(image@))) {
                    (None, _) => Err(ProjectionError::InvalidState),
                    (Some(_), None) => Err(ProjectionError::UnknownImage),
                    (Some(current), Some(at)) => {
                        if has_unrepresentable_port(ports@) {
                            Err(ProjectionError::PortOutOfRange)
                        } else {
                            Ok(
                                ServerInfoView {
                                    name: display_name(names@[0]@),
                                    game: games[at].name,
                                    tags: tags_of(labels@),
                                    ports: published_ports(ports@),
                                    state: current,
                                },
                            )
                        }
                    },
                }
            }
        },
        _ => Err(ProjectionError::Incomplete),
    }
}

impl Port {
    /// The published port that a reported port stands for, if it stands
    /// for one.
    pub fn try_from(value: &RawPort) -> (r: Result<Port, PortError>)
        ensures
            r == published_port(*value),
    {
        match (value.public_port, value.typ) {
            (Some(public), Some(typ)) => {
                if 0 <= public && public <= 65535 && 0 <= value.private_port && value.private_port
                    <= 65535 {
                    Ok(Port { public: public as u16, private: value.private_port as u16, typ })
                } else {
                    Err(PortError::OutOfRange)
                }
            },
            _ => Err(PortError::Unpublished),
        }
    }
}

/// The tags that the labels of a container stand for.
pub fn tags_from_labels(labels: &Vec<(String, String)>) -> (r: Vec<String>)
    ensures
        r.deep_view() == tags_of(labels@),
        distinct_labels(labels@) ==> r.deep_view().no_duplicates(),
{
    proof {
        if distinct_labels(labels@) {
            law_tags_are_a_set(labels@);
        }
    }
    let mut tags: Vec<String> = Vec::new();
    let n = labels.len();
    let mut i: usize = 0;
    proof {
        reveal_strlit("dgs-");
        assert(tags.deep_view() =~= tags_of(labels@.take(0)));
    }
    while i < n
        invariant
            i <= n,
            n == labels@.len(),
            TAG_LABEL_PREFIX@.len() == 4,
            tags.deep_view() == tags_of(labels@.take(i as int)),
        decreases n - i,
    {
        proof {
            let before = labels@.take(i as int);
            let after = labels@.take(i + 1);
            assert(after.drop_last() =~= before);
            assert(after.last() == labels@[i as int]);
        }
        let label = labels[i].0.as_str();
        if starts_with(label, TAG_LABEL_PREFIX) {
            let ghost old_tags = tags.deep_view();
            let tag = label.substring_char(4, label.unicode_len()).to_owned();
            tags.push(tag);
            assert(tags.deep_view() =~= old_tags.push(label@.skip(4)));
        }
        i += 1;
    }
    proof {
        assert(labels@.take(n as int) =~= labels@);
    }
    tags
}

/// The published ports among the reported ones, or the error of the first
/// that is published under a number that is no port number.
pub fn ports_from_raw(raw: &Vec<RawPort>) -> (r: Result<Vec<Port>, PortError>)
    ensures
        match r {
            Ok(ports) => !has_unrepresentable_port(raw@) && ports@ == published_ports(raw@),
            Err(e) => has_unrepresentable_port(raw@) && e == PortError::OutOfRange,
        },
{
    let mut ports: Vec<Port> = Vec::new();
    let n = raw.len();
    let mut i: usize = 0;
    while i < n
        invariant
            i <= n,
            n == raw@.len(),
            ports@ == published_ports(raw@.take(i as int)),
            forall|k: int|
                0 <= k < i ==> #[trigger] published_port(raw@[k]) != Err::<Port, PortError>(
                    PortError::OutOfRange,
                ),
        decreases n - i,
    {
        proof {
            let before = raw@.take(i as int);
            let after = raw@.take(i + 1);
            assert(after.drop_last() =~= before);
            assert(after.last() == raw@[i as int]);
        }
        match Port::try_from(&raw[i]) {
            Ok(port) => {
                ports.push(port);
            },
            Err(PortError::OutOfRange) => {
                return Err(PortError::OutOfRange);
            },
            Err(PortError::Unpublished) => {},
        }
        i += 1;
    }
    proof {
        assert(raw@.take(n as int) =~= raw@);
    }
    Ok(ports)
}

/// The name under which a container of the given name is shown.
pub fn shown_name(name: &str) -> (r: String)
    ensures
        r@ == display_name(name@),
{
    if starts_with_char(name, '/') {
        name.substring_char(1, name.unicode_len()).to_owned()
    } else {
        name.to_owned()
    }
}

impl ServerInfo {
    /// The server that `record` describes, if it describes one.
    pub fn try_from(record: &RuntimeContainerRecord, catalog: &Catalog) -> (r: Result<
        ServerInfo,
        ProjectionError,
    >)
        ensures
            match projection(*record, catalog@) {
                Ok(expected) => r matches Ok(info) && info@ == expected,
                Err(e) => r == Err::<ServerInfo, ProjectionError>(e),
            },
            record.has_distinct_labels() ==> (r matches Ok(info) ==> info@.tags.no_duplicates()),
    {
        match (&record.image, &record.names, &record.labels, &record.ports, &record.state) {
            (Some(image), Some(names), Some(labels), Some(ports), Some(state)) => {
                if names.len() != 1 {
                    return Err(ProjectionError::NameCount);
                }
                let current = match parse_state(state.as_str()) {
                    Some(current) => current,
                    None => {
                        return Err(ProjectionError::InvalidState);
                    },
                };
                let game = match catalog.find_by_image(image.as_str()) {
                    Some(game) => game,
                    None => {
                        return Err(ProjectionError::UnknownImage);
                    },
                };
                let published = match ports_from_raw(ports) {
                    Ok(published) => published,
                    Err(_) => {
                        return Err(ProjectionError::PortOutOfRange);
                    },
                };
                Ok(
                    ServerInfo {
                        name: shown_name(names[0].as_str()),
                        game: game.name,
                        tags: tags_from_labels(labels),
                        ports: published,
                        state: current,
                    },
                )
            },
            _ => Err(ProjectionError::Incomplete),
        }
    }
}

/// A port as it is written when a server is described: the protocol, the
/// host port and the container port.
pub open spec fn port_description(port: Port) -> Seq<char> {
    port.typ.wire_name() + ":"@ + decimal(port.public as nat) + "->"@ + decimal(
        port.private as nat,
    )
}

/// The texts as `Debug` writes each of them.
pub open spec fn debug_forms(items: Seq<Seq<char>>) -> Seq<Seq<char>> {
    items.map_values(|item: Seq<char>| debug_form(item))
}

/// The ports as they are written when a server is described.
pub open spec fn port_descriptions(ports: Seq<Port>) -> Seq<Seq<char>> {
    ports.map_values(|port: Port| port_description(port))
}

/// A server described in one line, for the eyes of a developer.
pub open spec fn description(info: ServerInfoView) -> Seq<char> {
    "Server {name: "@ + debug_form(info.name) + ", game: "@ + info.game.identifier_text()
        + ", tags: ["@ + comma_separated(debug_forms(info.tags)) + "], ports: ["@ + comma_separated(
        debug_forms(port_descriptions(info.ports)),
    ) + "], status: "@ + info.state.display_name() + "}"@
}

impl Port {
    /// The port as it is written when a server is described.
    pub fn describe(&self) -> (r: String)
        ensures
            r@ == port_description(*self),
    {
        let mut r = port_type_text(self.typ);
        r.append(":");
        r.append(decimal_text(self.public as u64).as_str());
        r.append("->");
        r.append(decimal_text(self.private as u64).as_str());
        r
    }
}

impl ServerInfo {
    /// The tags as `Debug` writes each of them.
    fn quoted_tags(&self) -> (r: Vec<String>)
        ensures
            r.deep_view() == debug_forms(self@.tags),
    {
        let mut quoted: Vec<String> = Vec::new();
        let n = self.tags.len();
        let mut i: usize = 0;
        while i < n
            invariant
                i <= n,
                n == self.tags@.len(),
                quoted@.len() == i,
                forall|k: int| 0 <= k < i ==> (#[trigger] quoted@[k])@ == debug_form(self.tags@[k]@),
            decreases n - i,
        {
            quoted.push(debug_text(self.tags[i].as_str()));
            i += 1;
        }
        assert(quoted.deep_view() =~= debug_forms(self@.tags));
        quoted
    }

    /// The ports as `Debug` writes the description of each.
    fn quoted_ports(&self) -> (r: Vec<String>)
        ensures
            r.deep_view() == debug_forms(port_descriptions(self@.ports)),
    {
        let mut quoted: Vec<String> = Vec::new();
        let n = self.ports.len();
        let mut i: usize = 0;
        while i < n
            invariant
                i <= n,
                n == self.ports@.len(),
                quoted@.len() == i,
                forall|k: int|
                    0 <= k < i ==> (#[trigger] quoted@[k])@ == debug_form(
                        port_description(self.ports@[k]),
                    ),
            decreases n - i,
        {
            quoted.push(debug_text(self.ports[i].describe().as_str()));
            i += 1;
        }
        assert(quoted.deep_view() =~= debug_forms(port_descriptions(self@.ports)));
        quoted
    }

    /// The server described in one line, for the eyes of a developer.
    pub fn describe(&self) -> (r: String)
        ensures
            r@ == description(self@),
    {
        let mut r = "Server {name: ".to_owned();
        r.append(debug_text(self.name.as_str()).as_str());
        r.append(", game: ");
        r.append(self.game.identifier());
        r.append(", tags: ");
        r.append(bracketed_list(&self.quoted_tags()).as_str());
        r.append(", ports: ");
        r.append(bracketed_list(&self.quoted_ports()).as_str());
        r.append(", status: ");
        r.append(state_display_text(self.state).as_str());
        r.append("}");
        proof {
            reveal_strlit("[");
            reveal_strlit("]");
            reveal_strlit(", tags: ");
            reveal_strlit(", tags: [");
            reveal_strlit(", ports: ");
            reveal_strlit("], ports: [");
            reveal_strlit(", status: ");
            reveal_strlit("], status: ");
            assert(", tags: "@ + "["@ =~= ", tags: ["@);
            assert("]"@ + ", ports: "@ + "["@ =~= "], ports: ["@);
            assert("]"@ + ", status: "@ =~= "], status: "@);
            assert(r@ =~= description(self@));
        }
        r
    }
}

/// One of the labels stands for `tag`.
pub open spec fn names_tag(labels: Seq<(String, String)>, tag: Seq<char>) -> bool {
    exists|i: int| 0 <= i < labels.len() && tag_of_label(#[trigger] labels[i].0@) == Some(tag)
}

/// What the tags of a container are: a text is among them exactly if one
/// of the labels stands for it.
pub proof fn lemma_tags_of(labels: Seq<(String, String)>)
    ensures
        forall|tag: Seq<char>| #[trigger]
            tags_of(labels).contains(tag) <==> names_tag(labels, tag),
    decreases labels.len(),
{
    let tags = tags_of(labels);
    if labels.len() == 0 {
        assert forall|tag: Seq<char>| !names_tag(labels, tag) by {}
    } else {
        let rest = labels.drop_last();
        let shorter = tags_of(rest);
        lemma_tags_of(rest);
        assert forall|tag: Seq<char>| #[trigger] tags.contains(tag) <==> names_tag(labels, tag) by {
            if tags.contains(tag) {
                if shorter.contains(tag) {
                    assert(names_tag(rest, tag));
                    let i = choose|i: int|
                        0 <= i < rest.len() && tag_of_label(#[trigger] rest[i].0@) == Some(tag);
                    assert(rest[i] == labels[i]);
                } else {
                    let k = choose|k: int| 0 <= k < tags.len() && tags[k] == tag;
                    assert(k == shorter.len());
                    assert(tag_of_label(labels[labels.len() - 1].0@) == Some(tag));
                }
            }
            if names_tag(labels, tag) {
                let i = choose|i: int|
                    0 <= i < labels.len() && tag_of_label(#[trigger] labels[i].0@) == Some(tag);
                if i < rest.len() {
                    assert(rest[i] == labels[i]);
                    assert(names_tag(rest, tag));
                    assert(shorter.contains(tag));
                    let k = choose|k: int| 0 <= k < shorter.len() && shorter[k] == tag;
                    assert(tags[k] == tag);
                } else {
                    assert(tags[shorter.len() as int] == tag);
                }
            }
        }
    }
}

/// A label stands for a tag exactly if it is the tag prefix followed by
/// the tag.
pub proof fn lemma_tag_of_label(label: Seq<char>, tag: Seq<char>)
    ensures
        tag_of_label(label) == Some(tag) <==> label == TAG_LABEL_PREFIX@ + tag,
{
    let prefix = TAG_LABEL_PREFIX@;
    if tag_of_label(label) == Some(tag) {
        assert(label =~= prefix + tag);
    }
    if label == prefix + tag {
        assert(label.subrange(0, prefix.len() as int) =~= prefix);
        assert(label.skip(prefix.len() as int) =~= tag);
    }
}

/// A report with no name, or with more than one, describes no server.
pub proof fn law_name_count_rejects(record: RuntimeContainerRecord, games: Seq<Game>)
    requires
        record.names matches Some(names) && names@.len() != 1,
    ensures
        projection(record, games) is Err,
{
}

/// A report that misses the image, the names, the labels, the ports or
/// the state describes no server.
pub proof fn law_incomplete_rejects(record: RuntimeContainerRecord, games: Seq<Game>)
    requires
        record.image is None || record.names is None || record.labels is None || record.ports
            is None || record.state is None,
    ensures
        projection(record, games) == Err::<ServerInfoView, ProjectionError>(
            ProjectionError::Incomplete,
        ),
{
}

/// A complete report with one name, the image of a game, a state that the
/// runtime is known to report and no published port outside the port
/// numbers describes a server. Its tags are exactly the texts that follow
/// the tag prefix in the labels that begin with it.
pub proof fn law_projection_tags(record: RuntimeContainerRecord, games: Seq<Game>)
    requires
        record.image is Some,
        record.labels is Some,
        record.ports is Some,
        record.state is Some,
        record.names matches Some(names) && names@.len() == 1,
        image_index(games, bare_image(record.image->0@)) is Some,
        ContainerState::named(record.state->0@) is Some,
        !has_unrepresentable_port(record.ports->0@),
    ensures
        projection(record, games) matches Ok(info) && forall|tag: Seq<char>| #[trigger]
            info.tags.contains(tag) <==> exists|i: int|
                0 <= i < record.labels->0@.len() && #[trigger] record.labels->0@[i].0@
                    == TAG_LABEL_PREFIX@ + tag,
{
    let labels = record.labels->0@;
    lemma_tags_of(labels);
    assert forall|tag: Seq<char>| #[trigger]
        tags_of(labels).contains(tag) <==> exists|i: int|
            0 <= i < labels.len() && #[trigger] labels[i].0@ == TAG_LABEL_PREFIX@ + tag by {
        if tags_of(labels).contains(tag) {
            assert(names_tag(labels, tag));
            let i = choose|i: int|
                0 <= i < labels.len() && tag_of_label(#[trigger] labels[i].0@) == Some(tag);
            lemma_tag_of_label(labels[i].0@, tag);
        }
        if exists|i: int| 0 <= i < labels.len() && #[trigger] labels[i].0@ == TAG_LABEL_PREFIX@ + tag {
            let i = choose|i: int|
                0 <= i < labels.len() && #[trigger] labels[i].0@ == TAG_LABEL_PREFIX@ + tag;
            lemma_tag_of_label(labels[i].0@, tag);
            assert(names_tag(labels, tag));
        }
    }
}

/// Where no label occurs twice, no tag occurs twice: the tags of a
/// container are a set.
pub proof fn law_tags_are_a_set(labels: Seq<(String, String)>)
    requires
        distinct_labels(labels),
    ensures
        tags_of(labels).no_duplicates(),
    decreases labels.len(),
{
    if labels.len() > 0 {
        let rest = labels.drop_last();
        let shorter = tags_of(rest);
        assert forall|i: int, j: int| 0 <= i < j < rest.len() implies (#[trigger] rest[i]).0@ != (
        #[trigger] rest[j]).0@ by {
            assert(rest[i] == labels[i] && rest[j] == labels[j]);
        }
        law_tags_are_a_set(rest);
        lemma_tags_of(rest);
        let last = labels.last().0@;
        if tag_of_label(last) is Some {
            let tag = tag_of_label(last)->0;
            if shorter.contains(tag) {
                assert(names_tag(rest, tag));
                let i = choose|i: int|
                    0 <= i < rest.len() && tag_of_label(#[trigger] rest[i].0@) == Some(tag);
                lemma_tag_of_label(rest[i].0@, tag);
                lemma_tag_of_label(last, tag);
                assert(rest[i] == labels[i]);
                assert(labels[i].0@ == labels[labels.len() - 1].0@);
            }
            assert forall|i: int, j: int|
                0 <= i < tags_of(labels).len() && 0 <= j < tags_of(labels).len() && i
                    != j implies tags_of(labels)[i] != tags_of(labels)[j] by {
                if i < shorter.len() {
                    assert(shorter.contains(tags_of(labels)[i]));
                }
                if j < shorter.len() {
                    assert(shorter.contains(tags_of(labels)[j]));
                }
            }
        }
    }
}

} // verus!
