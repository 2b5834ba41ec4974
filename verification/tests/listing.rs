use dgs::cli::LowerCaseString;
use dgs::game::Catalog;
use dgs::game::GameName;
use dgs::game::GameResolutionError;
use dgs::runtime::ContainerState;
use dgs::runtime::PortType;
use dgs::server::info::Port;
use dgs::server::info::RawPort;
use dgs::server::info::RuntimeContainerRecord;
use dgs::server::info::ServerInfo;
use dgs::server::ls::header;
use dgs::server::ls::ls;
use dgs::server::ls::RuntimeFilter;
use dgs::server::ls::ServerFilter;

fn tags(names: &[&str]) -> Vec<LowerCaseString> {
    names.iter().map(|name| LowerCaseString::new(name)).collect()
}

fn texts(names: &[&str]) -> Vec<String> {
    names.iter().map(|name| name.to_string()).collect()
}

fn record(name: &str, image: &str, labels: &[&str], state: &str) -> RuntimeContainerRecord {
    RuntimeContainerRecord {
        image: Some(image.to_string()),
        names: Some(vec![name.to_string()]),
        labels: Some(labels.iter().map(|l| (l.to_string(), String::new())).collect()),
        ports: Some(vec![RawPort {
            private_port: 25565,
            public_port: Some(40001),
            typ: Some(PortType::Tcp),
        }]),
        state: Some(state.to_string()),
    }
}

fn names(servers: &[ServerInfo]) -> Vec<&str> {
    servers.iter().map(|server| server.name.as_str()).collect()
}

#[test]
fn default_filter_asks_for_the_baseline_label_only() {
    let query = ServerFilter::default().query(&Catalog::builtin());
    assert_eq!(
        query.filters,
        RuntimeFilter { label: texts(&["dgs"]), ancestor: None, status: None }
    );
    assert_eq!(query.search_name, "");
    assert!(query.tags.is_empty());
    assert_eq!(query.game, None);
    assert_eq!(query.state, None);
    assert_eq!(query.unresolved, None);
    assert_eq!(query.filters.entries(), vec![("label".to_string(), texts(&["dgs"]))]);
}

#[test]
fn filter_with_tags_asks_for_every_tag_label() {
    let filter = ServerFilter { tags: tags(&["Survival", "pvp"]), ..ServerFilter::default() };
    assert_eq!(filter.label_filter(), texts(&["dgs-survival", "dgs-pvp", "dgs"]));
    let query = filter.query(&Catalog::builtin());
    assert_eq!(query.filters.label, texts(&["dgs-survival", "dgs-pvp", "dgs"]));
    assert_ne!(query.filters.label, texts(&["dgs"]));
    assert_eq!(query.tags, texts(&["survival", "pvp"]));
    let one = ServerFilter { tags: tags(&["x"]), ..ServerFilter::default() };
    assert_eq!(one.label_filter(), texts(&["dgs-x", "dgs"]));
}

#[test]
fn filter_with_game_asks_for_its_image() {
    let catalog = Catalog::builtin();
    let filter = ServerFilter {
        game: Some(LowerCaseString::new("Factorio")),
        ..ServerFilter::default()
    };
    let query = filter.query(&catalog);
    assert_eq!(query.filters.ancestor, Some("docker.io/factoriotools/factorio".to_string()));
    assert_eq!(query.game, Some(GameName::Factorio));
    assert_eq!(query.unresolved, None);
    let filter = ServerFilter { game: Some(LowerCaseString::new("mine")), ..filter };
    let query = filter.query(&catalog);
    assert_eq!(query.filters.ancestor, Some("docker.io/itzg/minecraft-server".to_string()));
    assert_eq!(query.game, Some(GameName::Minecraft));
}

#[test]
fn filter_with_unresolved_game_drops_the_game_and_says_so() {
    let catalog = Catalog::builtin();
    let filter = ServerFilter {
        game: Some(LowerCaseString::new("e")),
        ..ServerFilter::default()
    };
    let query = filter.query(&catalog);
    assert_eq!(query.filters.ancestor, None);
    assert_eq!(query.game, None);
    assert_eq!(
        query.unresolved,
        Some(GameResolutionError::Ambiguous(vec![GameName::Minecraft, GameName::Valheim]))
    );
    let filter = ServerFilter {
        game: Some(LowerCaseString::new("xyz")),
        ..ServerFilter::default()
    };
    let query = filter.query(&catalog);
    assert_eq!(query.filters.ancestor, None);
    assert_eq!(query.unresolved, Some(GameResolutionError::NotFound));
}

#[test]
fn filter_with_state_asks_for_its_wire_name() {
    let states = [
        (ContainerState::Empty, ""),
        (ContainerState::Created, "created"),
        (ContainerState::Running, "running"),
        (ContainerState::Paused, "paused"),
        (ContainerState::Restarting, "restarting"),
        (ContainerState::Removing, "removing"),
        (ContainerState::Exited, "exited"),
        (ContainerState::Dead, "dead"),
    ];
    for (state, text) in states {
        let filter = ServerFilter { state: Some(state), ..ServerFilter::default() };
        let query = filter.query(&Catalog::builtin());
        assert_eq!(query.filters.status, Some(text.to_string()));
        assert_eq!(query.state, Some(state));
    }
}

#[test]
fn filter_name_is_no_part_of_the_runtime_filter() {
    let filter = ServerFilter { name: Some("Lobby".to_string()), ..ServerFilter::default() };
    let query = filter.query(&Catalog::builtin());
    assert_eq!(query.search_name, "lobby");
    assert_eq!(
        query.filters,
        RuntimeFilter { label: texts(&["dgs"]), ancestor: None, status: None }
    );
}

#[test]
fn runtime_filter_entries_name_label_ancestor_and_status() {
    let filter = ServerFilter {
        name: Some("s".to_string()),
        game: Some(LowerCaseString::new("valheim")),
        tags: tags(&["a"]),
        state: Some(ContainerState::Exited),
    };
    let query = filter.query(&Catalog::builtin());
    assert_eq!(
        query.filters.entries(),
        vec![
            ("label".to_string(), texts(&["dgs-a", "dgs"])),
            ("ancestor".to_string(), texts(&["docker.io/lloesche/valheim-server"])),
            ("status".to_string(), texts(&["exited"])),
        ]
    );
}

#[test]
fn listing_excludes_a_record_that_misses_a_tag_label() {
    let catalog = Catalog::builtin();
    let image = "docker.io/itzg/minecraft-server:latest";
    let records = vec![
        record("/both", image, &["dgs", "dgs-survival", "dgs-pvp"], "running"),
        record("/first", image, &["dgs", "dgs-survival"], "running"),
        record("/second", image, &["dgs", "dgs-pvp"], "running"),
        record("/neither", image, &["dgs"], "running"),
        record("/swapped", image, &["dgs-pvp", "dgs-other", "dgs-survival"], "running"),
    ];
    let filter = ServerFilter { tags: tags(&["survival", "pvp"]), ..ServerFilter::default() };
    let listed = ls(&filter.query(&catalog), &catalog, &records);
    assert_eq!(names(&listed), vec!["both", "swapped"]);
    let filter = ServerFilter { tags: tags(&["SURVIVAL"]), ..ServerFilter::default() };
    let listed = ls(&filter.query(&catalog), &catalog, &records);
    assert_eq!(names(&listed), vec!["both", "first", "swapped"]);
}

#[test]
fn listing_compares_names_without_regard_to_case() {
    let catalog = Catalog::builtin();
    let image = "docker.io/itzg/minecraft-server";
    let records = vec![
        record("/Lobby-1", image, &["dgs"], "running"),
        record("/arena", image, &["dgs"], "running"),
        record("/my-LOBBY", image, &["dgs"], "exited"),
    ];
    let filter = ServerFilter { name: Some("lObBy".to_string()), ..ServerFilter::default() };
    let listed = ls(&filter.query(&catalog), &catalog, &records);
    assert_eq!(names(&listed), vec!["Lobby-1", "my-LOBBY"]);
    let listed = ls(&ServerFilter::default().query(&catalog), &catalog, &records);
    assert_eq!(names(&listed), vec!["Lobby-1", "arena", "my-LOBBY"]);
}

#[test]
fn listing_keeps_to_the_game_and_the_state_asked_for() {
    let catalog = Catalog::builtin();
    let records = vec![
        record("/mc", "docker.io/itzg/minecraft-server:1.16", &["dgs"], "running"),
        record("/fa", "docker.io/factoriotools/factorio", &["dgs"], "running"),
        record("/old", "docker.io/factoriotools/factorio:stable", &["dgs"], "exited"),
    ];
    let filter = ServerFilter {
        game: Some(LowerCaseString::new("factorio")),
        ..ServerFilter::default()
    };
    assert_eq!(names(&ls(&filter.query(&catalog), &catalog, &records)), vec!["fa", "old"]);
    let filter = ServerFilter { state: Some(ContainerState::Running), ..ServerFilter::default() };
    assert_eq!(names(&ls(&filter.query(&catalog), &catalog, &records)), vec!["mc", "fa"]);
    let filter = ServerFilter {
        game: Some(LowerCaseString::new("factorio")),
        state: Some(ContainerState::Exited),
        ..ServerFilter::default()
    };
    assert_eq!(names(&ls(&filter.query(&catalog), &catalog, &records)), vec!["old"]);
    let filter = ServerFilter {
        game: Some(LowerCaseString::new("o")),
        ..ServerFilter::default()
    };
    assert_eq!(names(&ls(&filter.query(&catalog), &catalog, &records)), vec!["fa", "old"]);
    let filter = ServerFilter {
        game: Some(LowerCaseString::new("a")),
        ..ServerFilter::default()
    };
    assert_eq!(names(&ls(&filter.query(&catalog), &catalog, &records)), vec!["mc", "fa", "old"]);
}

#[test]
fn listing_passes_over_records_that_describe_no_server() {
    let catalog = Catalog::builtin();
    let mut nameless = record("/x", "docker.io/itzg/minecraft-server", &["dgs"], "running");
    nameless.names = Some(vec![]);
    let mut partial = record("/y", "docker.io/itzg/minecraft-server", &["dgs"], "running");
    partial.ports = None;
    let records = vec![
        nameless,
        record("/alien", "docker.io/library/nginx", &["dgs"], "running"),
        record("/good", "docker.io/lloesche/valheim-server", &["dgs"], "paused"),
        partial,
        record("/odd", "docker.io/itzg/minecraft-server", &["dgs"], "sleeping"),
    ];
    let listed = ls(&ServerFilter::default().query(&catalog), &catalog, &records);
    assert_eq!(names(&listed), vec!["good"]);
    assert_eq!(listed[0].game, GameName::Valheim);
    assert_eq!(listed[0].state, ContainerState::Paused);
    assert!(ls(&ServerFilter::default().query(&catalog), &catalog, &vec![]).is_empty());
}

#[test]
fn admits_asks_for_every_tag() {
    let catalog = Catalog::builtin();
    let server = ServerInfo {
        name: "Lobby".to_string(),
        game: GameName::Minecraft,
        tags: texts(&["survival", "pvp"]),
        ports: vec![],
        state: ContainerState::Running,
    };
    let query = |names: &[&str]| {
        ServerFilter { tags: tags(names), ..ServerFilter::default() }.query(&catalog)
    };
    assert!(query(&[]).admits(&server));
    assert!(query(&["pvp"]).admits(&server));
    assert!(query(&["pvp", "survival"]).admits(&server));
    assert!(!query(&["pvp", "creative"]).admits(&server));
    assert!(!query(&["surviva"]).admits(&server));
    assert!(query(&["pvp"]).admits_named("lobby", &server));
    assert!(!query(&["pvp", "x"]).admits_named("lobby", &server));
}

#[test]
fn row_shows_name_game_tags_ports_and_state() {
    let server = ServerInfo {
        name: "s1".to_string(),
        game: GameName::Factorio,
        tags: texts(&["survival", "pvp"]),
        ports: vec![
            Port { private: 25565, public: 40001, typ: PortType::Tcp },
            Port { private: 34197, public: 40002, typ: PortType::Udp },
            Port { private: 1, public: 0, typ: PortType::Sctp },
            Port { private: 1, public: 65535, typ: PortType::Empty },
        ],
        state: ContainerState::Running,
    };
    assert_eq!(
        server.row(),
        texts(&[
            "s1",
            "factorio",
            " - survival\n - pvp\n",
            " - 40001\n - 40002(udp)\n - 0(sctp)\n - 65535()\n",
            "RUNNING",
        ])
    );
    let bare = ServerInfo { tags: vec![], ports: vec![], state: ContainerState::Exited, ..server };
    assert_eq!(bare.row(), texts(&["s1", "factorio", "", "", "EXITED"]));
}

#[test]
fn row_shows_every_state_by_its_name() {
    let states = [
        (ContainerState::Empty, "EMPTY"),
        (ContainerState::Created, "CREATED"),
        (ContainerState::Running, "RUNNING"),
        (ContainerState::Paused, "PAUSED"),
        (ContainerState::Restarting, "RESTARTING"),
        (ContainerState::Removing, "REMOVING"),
        (ContainerState::Exited, "EXITED"),
        (ContainerState::Dead, "DEAD"),
    ];
    for (state, text) in states {
        let server = ServerInfo {
            name: String::new(),
            game: GameName::Valheim,
            tags: vec![],
            ports: vec![],
            state,
        };
        assert_eq!(server.row()[4], text);
        assert_eq!(server.row()[1], "valheim");
    }
}

#[test]
fn header_names_the_five_columns() {
    assert_eq!(header(), vec!["Name", "Game", "Tags", "Ports", "Status"]);
}
