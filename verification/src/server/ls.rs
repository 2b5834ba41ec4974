//! Listing servers: the filter that the operator gives, the filter that
//! the runtime is asked with, and the choice among what it returns.

use crate::cli::LowerCaseString;
use crate::game::bare_image;
use crate::game::holds_image;
use crate::game::lemma_resolution_in_catalog;
use crate::game::resolution;
use crate::game::well_formed;
use crate::game::Catalog;
use crate::game::Game;
use crate::game::GameName;
use crate::game::GameResolutionError;
use crate::game::ResolutionFailure;
use crate::runtime::port_type_text;
use crate::runtime::state_display_text;
use crate::runtime::lemma_named_is_wire_name;
use crate::runtime::state_text;
use crate::runtime::ContainerState;
use crate::runtime::PortType;
use crate::runtime::BASELINE_LABEL;
use crate::runtime::TAG_LABEL_PREFIX;
use crate::server::info::names_tag;
use crate::server::info::lemma_tag_of_label;
use crate::server::info::lemma_tags_of;
use crate::server::info::projection;
use crate::server::info::Port;
use crate::server::info::tags_of;
use crate::server::info::ProjectionError;
use crate::server::info::RuntimeContainerRecord;
use crate::server::info::ServerInfo;
use crate::server::info::ServerInfoView;
use crate::text::contains;
use crate::text::decimal;
use crate::text::decimal_text;
use crate::text::is_substring;
use crate::text::join;
use crate::text::lowercase;
use crate::text::same_text;
use crate::text::to_lowercase;
use vstd::prelude::*;
use vstd::string::*;

verus! {

/// What the operator asks of the servers to be listed.
#[derive(Clone, Debug, PartialEq, Eq)]
pub struct ServerFilter {
    /// Only servers whose name holds this text, whatever the case.
    pub name: Option<String>,
    /// Only servers of the game that this identifier resolves to.
    pub game: Option<LowerCaseString>,
    /// Only servers that carry each of these tags.
    pub tags: Vec<LowerCaseString>,
    /// Only servers in this state.
    pub state: Option<ContainerState>,
}

/// The filter that the runtime's list is asked with: under each key, the
/// values that a container has to meet, all of them.
#[derive(Clone, Debug, PartialEq, Eq)]
pub struct RuntimeFilter {
    pub label: Vec<String>,
    pub ancestor: Option<String>,
    pub status: Option<String>,
}

/// A runtime filter as plain values.
pub struct RuntimeFilterView {
    pub label: Seq<Seq<char>>,
    pub ancestor: Option<Seq<char>>,
    pub status: Option<Seq<char>>,
}

impl View for RuntimeFilter {
    type V = RuntimeFilterView;

    open spec fn view(&self) -> RuntimeFilterView {
        RuntimeFilterView {
            label: self.label.deep_view(),
            ancestor: self.ancestor.deep_view(),
            status: self.status.deep_view(),
        }
    }
}

/// A filter made ready: what the runtime is asked, and what is asked of
/// each server that it returns.
#[derive(Clone, Debug, PartialEq, Eq)]
pub struct ServerQuery {
    pub filters: RuntimeFilter,
    /// The text to find in a server's name, in lower case; empty where
    /// any name will do.
    pub search_name: String,
    pub tags: Vec<String>,
    /// The game that the filter's identifier resolved to.
    pub game: Option<GameName>,
    pub state: Option<ContainerState>,
    /// Why the filter's identifier did not resolve, where it did not. The
    /// query then asks for servers of any game.
    pub unresolved: Option<GameResolutionError>,
}

/// A query as plain values.
pub struct ServerQueryView {
    pub filters: RuntimeFilterView,
    pub search_name: Seq<char>,
    pub tags: Seq<Seq<char>>,
    pub game: Option<GameName>,
    pub state: Option<ContainerState>,
    pub unresolved: Option<ResolutionFailure>,
}

impl View for ServerQuery {
    type V = ServerQueryView;

    open spec fn view(&self) -> ServerQueryView {
        ServerQueryView {
            filters: self.filters@,
            search_name: self.search_name@,
            tags: self.tags.deep_view(),
            game: self.game,
            state: self.state,
            unresolved: match self.unresolved {
                Some(e) => Some(e@),
                None => None,
            },
        }
    }
}

/// The label that stands for a tag.
pub open spec fn tag_label(tag: Seq<char>) -> Seq<char> {
    TAG_LABEL_PREFIX@ + tag
}

/// The labels that a container has to carry: that of each tag, then the
/// one that every container of this tool carries.
pub open spec fn label_terms(tags: Seq<Seq<char>>) -> Seq<Seq<char>> {
    tags.map_values(|tag: Seq<char>| tag_label(tag)).push(BASELINE_LABEL@)
}

/// The texts of the tags of a filter.
pub open spec fn tag_texts(tags: Seq<LowerCaseString>) -> Seq<Seq<char>> {
    tags.map_values(|tag: LowerCaseString| tag@)
}

/// What the filter's identifier resolves to, where it has one.
pub open spec fn filter_resolution(filter: ServerFilter, games: Seq<Game>) -> Option<
    Result<int, ResolutionFailure>,
> {
    match filter.game {
        Some(identifier) => Some(resolution(games, identifier@)),
        None => None,
    }
}

/// The query that a filter makes over a catalog.
pub open spec fn query_of(filter: ServerFilter, games: Seq<Game>) -> ServerQueryView {
    let tags = tag_texts(filter.tags@);
    let resolved = filter_resolution(filter, games);
    ServerQueryView {
        filters: RuntimeFilterView {
            label: label_terms(tags),
            ancestor: match resolved {
                Some(Ok(at)) => Some(games[at].image@),
                _ => None,
            },
            status: match filter.state {
                Some(state) => Some(state.wire_name()),
                None => None,
            },
        },
        search_name: match filter.name {
            Some(name) => lowercase(name@),
            None => Seq::empty(),
        },
        tags,
        game: match resolved {
            Some(Ok(at)) => Some(games[at].name),
            _ => None,
        },
        state: filter.state,
        unresolved: match resolved {
            Some(Err(failure)) => Some(failure),
            _ => None,
        },
    }
}

/// Whether a server whose name is `lowered` in lower case is one that the
/// query asks for.
pub open spec fn admits_named(query: ServerQueryView, lowered: Seq<char>, info: ServerInfoView) -> bool {
    &&& is_substring(query.search_name, lowered)
    &&& forall|i: int| 0 <= i < query.tags.len() ==> info.tags.contains(#[trigger] query.tags[i])
    &&& query.game matches Some(game) ==> info.game == game
    &&& query.state matches Some(state) ==> info.state == state
}

/// Whether a server is one that the query asks for: its name holds the
/// text searched for, whatever the case; it carries every tag asked for;
/// and it is of the game and in the state asked for, where one is.
pub open spec fn admits(query: ServerQueryView, info: ServerInfoView) -> bool {
    admits_named(query, lowercase(info.name), info)
}

/// The servers that a query lists of what the runtime reported: each
/// report that describes a server which the query asks for, in order.
pub open spec fn listing(
    query: ServerQueryView,
    games: Seq<Game>,
    records: Seq<RuntimeContainerRecord>,
) -> Seq<ServerInfoView>
    decreases records.len(),
{
    if records.len() == 0 {
        Seq::empty()
    } else {
        let rest = listing(query, games, records.drop_last());
        match projection(records.last(), games) {
            Ok(info) => if admits(query, info) {
                rest.push(info)
            } else {
                rest
            },
            Err(_) => rest,
        }
    }
}

/// The servers as plain values.
pub open spec fn server_views(servers: Seq<ServerInfo>) -> Seq<ServerInfoView> {
    servers.map_values(|server: ServerInfo| server@)
}

impl Default for ServerFilter {
    /// The filter that asks for every server.
    fn default() -> (r: ServerFilter)
        ensures
            r.name is None,
            r.game is None,
            r.tags@.len() == 0,
            r.state is None,
    {
        ServerFilter { name: None, game: None, tags: Vec::new(), state: None }
    }
}

impl ServerFilter {
    /// The labels that the runtime is asked for.
    pub fn label_filter(&self) -> (r: Vec<String>)
        ensures
            r.deep_view() == label_terms(tag_texts(self.tags@)),
    {
        let mut labels: Vec<String> = Vec::new();
        let n = self.tags.len();
        let mut i: usize = 0;
        while i < n
            invariant
                i <= n,
                n == self.tags@.len(),
                labels@.len() == i,
                forall|k: int| 0 <= k < i ==> (#[trigger] labels@[k])@ == tag_label(self.tags@[k]@),
            decreases n - i,
        {
            labels.push(join(TAG_LABEL_PREFIX, self.tags[i].as_str()));
            i += 1;
        }
        labels.push(BASELINE_LABEL.to_owned());
        assert(labels.deep_view() =~= label_terms(tag_texts(self.tags@)));
        labels
    }

    /// The texts of the tags asked for.
    pub fn tag_list(&self) -> (r: Vec<String>)
        ensures
            r.deep_view() == tag_texts(self.tags@),
    {
        let mut tags: Vec<String> = Vec::new();
        let n = self.tags.len();
        let mut i: usize = 0;
        while i < n
            invariant
                i <= n,
                n == self.tags@.len(),
                tags@.len() == i,
                forall|k: int| 0 <= k < i ==> (#[trigger] tags@[k])@ == self.tags@[k]@,
            decreases n - i,
        {
            tags.push(self.tags[i].as_str().to_owned());
            i += 1;
        }
        assert(tags.deep_view() =~= tag_texts(self.tags@));
        tags
    }

    /// Makes the filter ready over a catalog: resolves its identifier and
    /// puts together what the runtime is asked.
    pub fn query(&self, catalog: &Catalog) -> (r: ServerQuery)
        ensures
            r@ == query_of(*self, catalog@),
    {
        let mut game: Option<GameName> = None;
        let mut ancestor: Option<String> = None;
        let mut unresolved: Option<GameResolutionError> = None;
        match &self.game {
            Some(identifier) => {
                match catalog.resolve(identifier) {
                    Ok(found) => {
                        game = Some(found.name);
                        ancestor = Some(found.image.to_owned());
                    },
                    Err(e) => {
                        unresolved = Some(e);
                    },
                }
            },
            None => {},
        }
        let status = match self.state {
            Some(state) => Some(state_text(state)),
            None => None,
        };
        let search_name = match &self.name {
            Some(name) => to_lowercase(name.as_str()),
            None => String::new(),
        };
        ServerQuery {
            filters: RuntimeFilter { label: self.label_filter(), ancestor, status },
            search_name,
            tags: self.tag_list(),
            game,
            state: self.state,
            unresolved,
        }
    }
}

/// The filter as the runtime takes it: each key that has values, with
/// its values.
pub open spec fn filter_entries(filter: RuntimeFilterView) -> Seq<(Seq<char>, Seq<Seq<char>>)> {
    seq![("label"@, filter.label)] + match filter.ancestor {
        Some(image) => seq![("ancestor"@, seq![image])],
        None => Seq::empty(),
    } + match filter.status {
        Some(state) => seq![("status"@, seq![state])],
        None => Seq::empty(),
    }
}

impl RuntimeFilter {
    /// The filter as the runtime takes it: each key that has values, with
    /// its values.
    pub fn entries(&self) -> (r: Vec<(String, Vec<String>)>)
        ensures
            r.deep_view() == filter_entries(self@),
    {
        let mut entries: Vec<(String, Vec<String>)> = Vec::new();
        let mut labels: Vec<String> = Vec::new();
        let n = self.label.len();
        let mut i: usize = 0;
        while i < n
            invariant
                i <= n,
                n == self.label@.len(),
                labels@.len() == i,
                forall|k: int| 0 <= k < i ==> (#[trigger] labels@[k])@ == self.label@[k]@,
            decreases n - i,
        {
            labels.push(self.label[i].clone());
            i += 1;
        }
        assert(labels.deep_view() =~= self.label.deep_view());
        entries.push(("label".to_owned(), labels));
        match &self.ancestor {
            Some(image) => {
                let mut values: Vec<String> = Vec::new();
                values.push(image.clone());
                assert(values.deep_view() =~= seq![image@]);
                entries.push(("ancestor".to_owned(), values));
            },
            None => {},
        }
        match &self.status {
            Some(state) => {
                let mut values: Vec<String> = Vec::new();
                values.push(state.clone());
                assert(values.deep_view() =~= seq![state@]);
                entries.push(("status".to_owned(), values));
            },
            None => {},
        }
        assert(entries.deep_view() =~= filter_entries(self@));
        entries
    }
}

impl ServerQuery {
    /// Whether a server carries the tag.
    fn carries(info: &ServerInfo, tag: &str) -> (r: bool)
        ensures
            r == info@.tags.contains(tag@),
    {
        let n = info.tags.len();
        let mut i: usize = 0;
        while i < n
            invariant
                i <= n,
                n == info.tags@.len(),
                forall|k: int| 0 <= k < i ==> info@.tags[k] != tag@,
            decreases n - i,
        {
            assert(info@.tags[i as int] == info.tags@[i as int]@);
            if same_text(info.tags[i].as_str(), tag) {
                return true;
            }
            i += 1;
        }
        false
    }

    /// Whether the query asks for the server, given its name in lower
    /// case.
    pub fn admits_named(&self, lowered: &str, info: &ServerInfo) -> (r: bool)
        ensures
            r == admits_named(self@, lowered@, info@),
    {
        if !contains(lowered, self.search_name.as_str()) {
            return false;
        }
        let n = self.tags.len();
        let mut i: usize = 0;
        while i < n
            invariant
                i <= n,
                n == self.tags@.len(),
                forall|k: int| 0 <= k < i ==> info@.tags.contains(#[trigger] self@.tags[k]),
            decreases n - i,
        {
            assert(self@.tags[i as int] == self.tags@[i as int]@);
            if !Self::carries(info, self.tags[i].as_str()) {
                return false;
            }
            i += 1;
        }
        let game_fits = match self.game {
            Some(game) => info.game == game,
            None => true,
        };
        let state_fits = match self.state {
            Some(state) => info.state == state,
            None => true,
        };
        game_fits && state_fits
    }

    /// Whether the query asks for the server.
    pub fn admits(&self, info: &ServerInfo) -> (r: bool)
        ensures
            r == admits(self@, info@),
    {
        let lowered = to_lowercase(info.name.as_str());
        self.admits_named(lowered.as_str(), info)
    }
}

/// Lists the servers among what the runtime reported: every report that
/// describes a server which the query asks for, in the order of the
/// reports. A report that describes no server is passed over.
pub fn ls(query: &ServerQuery, catalog: &Catalog, records: &Vec<RuntimeContainerRecord>) -> (r: Vec<
    ServerInfo,
>)
    ensures
        server_views(r@) == listing(query@, catalog@, records@),
{
    let mut servers: Vec<ServerInfo> = Vec::new();
    let n = records.len();
    let mut i: usize = 0;
    assert(server_views(servers@) =~= listing(query@, catalog@, records@.take(0)));
    while i < n
        invariant
            i <= n,
            n == records@.len(),
            server_views(servers@) == listing(query@, catalog@, records@.take(i as int)),
        decreases n - i,
    {
        proof {
            let before = records@.take(i as int);
            let after = records@.take(i + 1);
            assert(after.drop_last() =~= before);
            assert(after.last() == records@[i as int]);
        }
        match ServerInfo::try_from(&records[i], catalog) {
            Ok(info) => {
                if query.admits(&info) {
                    let ghost old_views = server_views(servers@);
                    servers.push(info);
                    assert(server_views(servers@) =~= old_views.push(info@));
                }
            },
            Err(_) => {},
        }
        i += 1;
    }
    proof {
        assert(records@.take(n as int) =~= records@);
    }
    servers
}

/// The tags as they are shown: each on a line of its own.
pub open spec fn tags_cell(tags: Seq<Seq<char>>) -> Seq<char>
    decreases tags.len(),
{
    if tags.len() == 0 {
        Seq::empty()
    } else {
        tags_cell(tags.drop_last()) + " - "@ + tags.last() + "\n"@
    }
}

/// A port as it is shown: the host port, and the protocol unless it is
/// TCP.
pub open spec fn port_line(port: Port) -> Seq<char> {
    if port.typ == PortType::Tcp {
        " - "@ + decimal(port.public as nat) + "\n"@
    } else {
        " - "@ + decimal(port.public as nat) + "("@ + port.typ.wire_name() + ")\n"@
    }
}

/// The ports as they are shown: each on a line of its own.
pub open spec fn ports_cell(ports: Seq<Port>) -> Seq<char>
    decreases ports.len(),
{
    if ports.len() == 0 {
        Seq::empty()
    } else {
        ports_cell(ports.drop_last()) + port_line(ports.last())
    }
}

/// The cells of the line that shows a server: name, game, tags, ports and
/// state.
pub open spec fn row_of(info: ServerInfoView) -> Seq<Seq<char>> {
    seq![
        info.name,
        info.game.text(),
        tags_cell(info.tags),
        ports_cell(info.ports),
        info.state.display_name(),
    ]
}

/// The headings of the columns of a listing.
pub fn header() -> (r: Vec<&'static str>)
    ensures
        r@.len() == 5,
        r@[0]@ == "Name"@,
        r@[1]@ == "Game"@,
        r@[2]@ == "Tags"@,
        r@[3]@ == "Ports"@,
        r@[4]@ == "Status"@,
{
    let mut r: Vec<&'static str> = Vec::new();
    r.push("Name");
    r.push("Game");
    r.push("Tags");
    r.push("Ports");
    r.push("Status");
    r
}

impl ServerInfo {
    /// The tags as they are shown.
    fn tags_text(&self) -> (r: String)
        ensures
            r@ == tags_cell(self@.tags),
    {
        let mut cell = String::new();
        let n = self.tags.len();
        let mut i: usize = 0;
        assert(cell@ =~= tags_cell(self@.tags.take(0)));
        while i < n
            invariant
                i <= n,
                n == self.tags@.len(),
                cell@ == tags_cell(self@.tags.take(i as int)),
            decreases n - i,
        {
            proof {
                let before = self@.tags.take(i as int);
                let after = self@.tags.take(i + 1);
                assert(after.drop_last() =~= before);
                assert(after.last() == self.tags@[i as int]@);
            }
            cell.append(" - ");
            cell.append(self.tags[i].as_str());
            cell.append("\n");
            i += 1;
        }
        proof {
            assert(self@.tags.take(n as int) =~= self@.tags);
        }
        cell
    }

    /// The ports as they are shown.
    fn ports_text(&self) -> (r: String)
        ensures
            r@ == ports_cell(self@.ports),
    {
        let mut cell = String::new();
        let n = self.ports.len();
        let mut i: usize = 0;
        assert(cell@ =~= ports_cell(self@.ports.take(0)));
        while i < n
            invariant
                i <= n,
                n == self.ports@.len(),
                cell@ == ports_cell(self@.ports.take(i as int)),
            decreases n - i,
        {
            proof {
                let before = self@.ports.take(i as int);
                let after = self@.ports.take(i + 1);
                assert(after.drop_last() =~= before);
                assert(after.last() == self.ports@[i as int]);
            }
            let ghost old_cell = cell@;
            let port = self.ports[i];
            cell.append(" - ");
            cell.append(decimal_text(port.public as u64).as_str());
            if port.typ == PortType::Tcp {
                cell.append("\n");
            } else {
                cell.append("(");
                cell.append(port_type_text(port.typ).as_str());
                cell.append(")\n");
            }
            assert(cell@ =~= old_cell + port_line(port));
            i += 1;
        }
        proof {
            assert(self@.ports.take(n as int) =~= self@.ports);
        }
        cell
    }

    /// The cells of the line that shows the server.
    pub fn row(&self) -> (r: Vec<String>)
        ensures
            r.deep_view() == row_of(self@),
    {
        let mut cells: Vec<String> = Vec::new();
        cells.push(self.name.clone());
        cells.push(self.game.as_str().to_owned());
        cells.push(self.tags_text());
        cells.push(self.ports_text());
        cells.push(state_display_text(self.state));
        assert(cells.deep_view() =~= row_of(self@));
        cells
    }
}

/// The labels that the runtime is asked for hold the one that every
/// container of this tool carries and, for each tag asked for, the label
/// that stands for it: with a tag, never the common label alone.
pub proof fn law_labels_require_every_tag(tags: Seq<Seq<char>>)
    ensures
        label_terms(tags).len() == tags.len() + 1,
        label_terms(tags).contains(BASELINE_LABEL@),
        forall|i: int| 0 <= i < tags.len() ==> label_terms(tags).contains(tag_label(#[trigger] tags[i])),
        tags.len() > 0 ==> label_terms(tags) != seq![BASELINE_LABEL@],
{
    let terms = label_terms(tags);
    assert(terms[tags.len() as int] == BASELINE_LABEL@);
    assert forall|i: int| 0 <= i < tags.len() implies terms.contains(tag_label(#[trigger] tags[i])) by {
        assert(terms[i] == tag_label(tags[i]));
    }
    if tags.len() > 0 {
        assert(seq![BASELINE_LABEL@].len() == 1);
    }
}

/// A server whose container lacks the label of one of the tags asked for
/// is not one that the query asks for.
pub proof fn law_missing_tag_excludes(
    query: ServerQueryView,
    games: Seq<Game>,
    record: RuntimeContainerRecord,
    missing: int,
)
    requires
        0 <= missing < query.tags.len(),
        record.labels matches Some(labels) ==> forall|i: int|
            0 <= i < labels@.len() ==> (#[trigger] labels@[i]).0@ != tag_label(query.tags[missing]),
    ensures
        projection(record, games) matches Ok(info) ==> !admits(query, info),
        listing(query, games, seq![record]) == Seq::<ServerInfoView>::empty(),
{
    let tag = query.tags[missing];
    if projection(record, games) is Ok {
        let info = projection(record, games)->Ok_0;
        let labels = record.labels->0@;
        assert(info.tags == tags_of(labels));
        lemma_tags_of(labels);
        if info.tags.contains(tag) {
            assert(names_tag(labels, tag));
            let i = choose|i: int|
                0 <= i < labels.len() && crate::server::info::tag_of_label(#[trigger] labels[i].0@)
                    == Some(tag);
            lemma_tag_of_label(labels[i].0@, tag);
        }
        assert(!info.tags.contains(query.tags[missing]));
    }
    let records = seq![record];
    assert(records.drop_last() =~= Seq::<RuntimeContainerRecord>::empty());
    assert(records.last() == record);
    assert(listing(query, games, records.drop_last()) =~= Seq::<ServerInfoView>::empty());
}

/// Every server that is listed is described by one of the reports and is
/// one that the query asks for.
pub proof fn law_listed_servers_are_admitted(
    query: ServerQueryView,
    games: Seq<Game>,
    records: Seq<RuntimeContainerRecord>,
)
    ensures
        forall|k: int|
            0 <= k < listing(query, games, records).len() ==> admits(
                query,
                #[trigger] listing(query, games, records)[k],
            ) && exists|i: int|
                0 <= i < records.len() && #[trigger] projection(records[i], games) == Ok::<
                    ServerInfoView,
                    ProjectionError,
                >(listing(query, games, records)[k]),
    decreases records.len(),
{
    let listed = listing(query, games, records);
    if records.len() > 0 {
        let rest = records.drop_last();
        law_listed_servers_are_admitted(query, games, rest);
        let shorter = listing(query, games, rest);
        assert forall|k: int| 0 <= k < listed.len() implies admits(query, #[trigger] listed[k])
            && exists|i: int|
            0 <= i < records.len() && #[trigger] projection(records[i], games) == Ok::<
                ServerInfoView,
                ProjectionError,
            >(listed[k]) by {
            if k < shorter.len() {
                assert(listed[k] == shorter[k]);
                let i = choose|i: int|
                    0 <= i < rest.len() && #[trigger] projection(rest[i], games) == Ok::<
                        ServerInfoView,
                        ProjectionError,
                    >(shorter[k]);
                assert(rest[i] == records[i]);
            } else {
                assert(projection(records[records.len() - 1], games) == Ok::<
                    ServerInfoView,
                    ProjectionError,
                >(listed[k]));
            }
        }
    }
}

/// Whether the container that a report describes carries the label.
pub open spec fn carries_label(record: RuntimeContainerRecord, label: Seq<char>) -> bool {
    record.labels matches Some(labels) && exists|i: int|
        0 <= i < labels@.len() && (#[trigger] labels@[i]).0@ == label
}

/// Whether a container meets a runtime filter for certain: it carries
/// every label asked for, it runs the very image asked for, and it is in
/// the state asked for. The runtime returns every such container, and may
/// return more.
pub open spec fn meets_filter(filter: RuntimeFilterView, record: RuntimeContainerRecord) -> bool {
    &&& forall|i: int|
        0 <= i < filter.label.len() ==> carries_label(record, #[trigger] filter.label[i])
    &&& filter.ancestor matches Some(image) ==> record.image matches Some(of) && bare_image(of@)
        == image
    &&& filter.status matches Some(state) ==> record.state matches Some(of) && of@ == state
}

/// What the runtime is asked is no narrower than what is asked of the
/// servers: a container of this tool that describes a server which the
/// query asks for meets the runtime filter of that query.
pub proof fn law_runtime_filter_over_selects(
    filter: ServerFilter,
    games: Seq<Game>,
    record: RuntimeContainerRecord,
)
    requires
        well_formed(games),
        carries_label(record, BASELINE_LABEL@),
        projection(record, games) matches Ok(info) && admits(query_of(filter, games), info),
    ensures
        meets_filter(query_of(filter, games).filters, record),
{
    let query = query_of(filter, games);
    let info = projection(record, games)->Ok_0;
    let labels = record.labels->0@;
    let tags = tag_texts(filter.tags@);
    lemma_tags_of(labels);
    assert forall|i: int| 0 <= i < query.filters.label.len() implies carries_label(
        record,
        #[trigger] query.filters.label[i],
    ) by {
        if i < tags.len() {
            let tag = tags[i];
            assert(query.tags[i] == tag);
            assert(info.tags.contains(tag));
            assert(names_tag(labels, tag));
            let k = choose|k: int|
                0 <= k < labels.len() && crate::server::info::tag_of_label(#[trigger] labels[k].0@)
                    == Some(tag);
            lemma_tag_of_label(labels[k].0@, tag);
            assert(labels[k].0@ == query.filters.label[i]);
        }
    }
    if query.filters.ancestor is Some {
        let identifier = filter.game->0@;
        lemma_resolution_in_catalog(games, identifier);
        let at = resolution(games, identifier)->Ok_0;
        let bare = bare_image(record.image->0@);
        let held = choose|k: int| holds_image(games, bare, k);
        assert(holds_image(games, bare, held));
        assert(games[held].name == games[at].name);
        assert(held == at);
    }
    if query.filters.status is Some {
        lemma_named_is_wire_name(record.state->0@, filter.state->0);
    }
}

} // verus!
