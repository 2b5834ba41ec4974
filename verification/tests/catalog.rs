use dgs::cli::LowerCaseString;
use dgs::game::Catalog;
use dgs::game::Game;
use dgs::game::GameName;
use dgs::game::GameResolutionError;
use dgs::game::PortConfiguration;
use dgs::game::Version;
use dgs::game::VersionConfiguration;
use dgs::game::VersionLs;
use dgs::game::strip_tag;
use dgs::runtime::PortType;

fn game(name: GameName, image: &'static str) -> Game {
    Game {
        name,
        image,
        ports: PortConfiguration::SinglePort(25565, PortType::Tcp),
        envs: &[],
        version: Version { config: VersionConfiguration::NotConfigurable, ls: VersionLs::NoHelp },
    }
}

fn key(text: &str) -> LowerCaseString {
    LowerCaseString::new(text)
}

#[test]
fn builtin_catalog_holds_the_three_games() {
    let catalog = Catalog::builtin();
    let games = catalog.games();
    assert_eq!(games.len(), 3);
    assert_eq!(games[0].name, GameName::Minecraft);
    assert_eq!(games[0].image, "docker.io/itzg/minecraft-server");
    assert_eq!(games[0].ports, PortConfiguration::SinglePort(25565, PortType::Tcp));
    assert_eq!(games[0].envs, &["EULA=TRUE"]);
    assert_eq!(games[0].version.config, VersionConfiguration::Env("VERSION"));
    assert!(matches!(games[0].version.ls, VersionLs::Help(_)));
    assert_eq!(games[1].name, GameName::Factorio);
    assert_eq!(games[1].image, "docker.io/factoriotools/factorio");
    assert_eq!(games[1].ports, PortConfiguration::SinglePort(34197, PortType::Udp));
    assert!(games[1].envs.is_empty());
    assert_eq!(games[1].version.config, VersionConfiguration::Tag);
    assert_eq!(games[2].name, GameName::Valheim);
    assert_eq!(games[2].image, "docker.io/lloesche/valheim-server");
    assert_eq!(
        games[2].ports,
        PortConfiguration::NonConfigurable(&[
            (2456, PortType::Udp),
            (2457, PortType::Udp),
            (2458, PortType::Udp)
        ])
    );
    assert_eq!(games[2].version.config, VersionConfiguration::NotConfigurable);
    assert_eq!(games[2].version.ls, VersionLs::NoHelp);
}

#[test]
fn game_names_are_written_in_lower_case() {
    assert_eq!(GameName::Minecraft.as_str(), "minecraft");
    assert_eq!(GameName::Factorio.as_str(), "factorio");
    assert_eq!(GameName::Valheim.as_str(), "valheim");
    assert_eq!(&*GameName::Valheim, "valheim");
    assert_eq!(GameName::Minecraft.identifier(), "Minecraft");
    assert_eq!(GameName::Factorio.identifier(), "Factorio");
    assert_eq!(GameName::Valheim.identifier(), "Valheim");
}

#[test]
fn strip_tag_cuts_at_the_first_colon() {
    assert_eq!(strip_tag("registry/mc:1.2"), "registry/mc");
    assert_eq!(strip_tag("registry/mc"), "registry/mc");
    assert_eq!(strip_tag("registry/mc:"), "registry/mc");
    assert_eq!(strip_tag(":latest"), "");
    assert_eq!(strip_tag("host:5000/mc:1.2"), "host");
    assert_eq!(strip_tag(""), "");
    assert_eq!(strip_tag("régistry/mc:ünïcode"), "régistry/mc");
}

#[test]
fn find_by_image_ignores_any_tag() {
    let catalog = Catalog::builtin();
    for game in catalog.games() {
        let bare = catalog.find_by_image(game.image);
        assert_eq!(bare.map(|g| g.name), Some(game.name));
        for tag in ["latest", "1.2", "", "a:b", "stable-2021"] {
            let tagged = format!("{}:{}", game.image, tag);
            assert_eq!(catalog.find_by_image(&tagged), bare);
        }
    }
    for image in ["unknown/image", "", "docker.io", "host:5000/mc"] {
        let tagged = format!("{}:{}", image, "latest");
        assert_eq!(catalog.find_by_image(&tagged), catalog.find_by_image(image));
    }
}

#[test]
fn find_by_image_wants_the_whole_image() {
    let catalog = Catalog::builtin();
    assert_eq!(catalog.find_by_image("docker.io/itzg/minecraft-serve"), None);
    assert_eq!(catalog.find_by_image("itzg/minecraft-server"), None);
    assert_eq!(catalog.find_by_image("docker.io/itzg/minecraft-server2"), None);
    assert_eq!(
        catalog.find_by_image("docker.io/factoriotools/factorio:1.1").map(|g| g.name),
        Some(GameName::Factorio)
    );
}

#[test]
fn find_by_name_compares_the_lower_cased_text() {
    let catalog = Catalog::builtin();
    assert_eq!(catalog.find_by_name(&key("minecraft")).map(|g| g.name), Some(GameName::Minecraft));
    assert_eq!(catalog.find_by_name(&key("FACTORIO")).map(|g| g.name), Some(GameName::Factorio));
    assert_eq!(catalog.find_by_name(&key("ValHeim")).map(|g| g.name), Some(GameName::Valheim));
    assert_eq!(catalog.find_by_name(&key("mine")), None);
    assert_eq!(catalog.find_by_name(&key("")), None);
    assert_eq!(catalog.find_by_name(&key("minecraft ")), None);
}

#[test]
fn game_from_str_ignores_case() {
    let catalog = Catalog::builtin();
    assert_eq!(catalog.game_from_str("Minecraft").map(|g| g.name), Ok(GameName::Minecraft));
    assert_eq!(catalog.game_from_str("valheim").map(|g| g.name), Ok(GameName::Valheim));
    assert_eq!(catalog.game_from_str("vale"), Err(GameResolutionError::NotFound));
}

#[test]
fn get_finds_a_game_by_its_name() {
    let catalog = Catalog::builtin();
    assert_eq!(catalog.get(GameName::Factorio).map(|g| g.image), Some("docker.io/factoriotools/factorio"));
    let small = Catalog::new(vec![game(GameName::Minecraft, "registry/mc")]).unwrap();
    assert_eq!(small.get(GameName::Minecraft).map(|g| g.image), Some("registry/mc"));
    assert_eq!(small.get(GameName::Valheim), None);
}

#[test]
fn resolve_exact_name_gives_that_game() {
    let catalog = Catalog::builtin();
    assert_eq!(catalog.resolve(&key("minecraft")).map(|g| g.name), Ok(GameName::Minecraft));
    assert_eq!(catalog.resolve(&key("factorio")).map(|g| g.name), Ok(GameName::Factorio));
    assert_eq!(catalog.resolve(&key("valheim")).map(|g| g.name), Ok(GameName::Valheim));
    assert_eq!(catalog.resolve(&key("Valheim")).map(|g| g.name), Ok(GameName::Valheim));
}

#[test]
fn resolve_single_substring_gives_that_game() {
    let catalog = Catalog::builtin();
    assert_eq!(catalog.resolve(&key("mine")).map(|g| g.name), Ok(GameName::Minecraft));
    assert_eq!(catalog.resolve(&key("craft")).map(|g| g.name), Ok(GameName::Minecraft));
    assert_eq!(catalog.resolve(&key("tori")).map(|g| g.name), Ok(GameName::Factorio));
    assert_eq!(catalog.resolve(&key("heim")).map(|g| g.name), Ok(GameName::Valheim));
    assert_eq!(catalog.resolve(&key("v")).map(|g| g.name), Ok(GameName::Valheim));
}

#[test]
fn resolve_unknown_identifier_is_not_found() {
    let catalog = Catalog::builtin();
    assert_eq!(catalog.resolve(&key("xyz")), Err(GameResolutionError::NotFound));
    assert_eq!(catalog.resolve(&key("minecrafts")), Err(GameResolutionError::NotFound));
    assert_eq!(catalog.resolve(&key("terraria")), Err(GameResolutionError::NotFound));
    let empty = Catalog::new(vec![]).unwrap();
    assert_eq!(empty.resolve(&key("minecraft")), Err(GameResolutionError::NotFound));
    assert_eq!(empty.resolve(&key("")), Err(GameResolutionError::NotFound));
}

#[test]
fn resolve_ambiguous_identifier_lists_exactly_the_matching_names() {
    let catalog = Catalog::builtin();
    assert_eq!(
        catalog.resolve(&key("a")),
        Err(GameResolutionError::Ambiguous(vec![
            GameName::Minecraft,
            GameName::Factorio,
            GameName::Valheim
        ]))
    );
    assert_eq!(
        catalog.resolve(&key("e")),
        Err(GameResolutionError::Ambiguous(vec![GameName::Minecraft, GameName::Valheim]))
    );
    assert_eq!(
        catalog.resolve(&key("f")),
        Err(GameResolutionError::Ambiguous(vec![GameName::Minecraft, GameName::Factorio]))
    );
    assert_eq!(
        catalog.resolve(&key("")),
        Err(GameResolutionError::Ambiguous(vec![
            GameName::Minecraft,
            GameName::Factorio,
            GameName::Valheim
        ]))
    );
}

#[test]
fn resolution_errors_tell_the_operator_what_was_found() {
    assert_eq!(
        GameResolutionError::NotFound.message("xyz"),
        "Unable to find a matching game for: `xyz`"
    );
    assert_eq!(
        GameResolutionError::Ambiguous(vec![GameName::Minecraft, GameName::Valheim]).message("e"),
        "Unable to find unique matching game for: `e`, found: `minecraft`, `valheim`"
    );
    assert_eq!(
        GameResolutionError::Ambiguous(vec![GameName::Factorio]).message("o"),
        "Unable to find unique matching game for: `o`, found: `factorio`"
    );
    assert_eq!(
        GameResolutionError::Ambiguous(vec![]).message(""),
        "Unable to find unique matching game for: ``, found: "
    );
}

#[test]
fn catalog_listing_names_every_game() {
    assert_eq!(Catalog::builtin().listing(), "Availible Games:\nminecraft\nfactorio\nvalheim");
    assert_eq!(Catalog::new(vec![]).unwrap().listing(), "Availible Games:\n");
    assert_eq!(
        Catalog::new(vec![game(GameName::Valheim, "v")]).unwrap().listing(),
        "Availible Games:\nvalheim"
    );
}

#[test]
fn catalog_new_refuses_a_name_twice() {
    let games = vec![game(GameName::Minecraft, "a/one"), game(GameName::Minecraft, "a/two")];
    assert!(Catalog::new(games).is_none());
}

#[test]
fn catalog_new_refuses_an_image_twice() {
    let games = vec![game(GameName::Minecraft, "a/one"), game(GameName::Factorio, "a/one")];
    assert!(Catalog::new(games).is_none());
}

#[test]
fn catalog_new_refuses_an_image_with_a_tag() {
    assert!(Catalog::new(vec![game(GameName::Minecraft, "a/one:latest")]).is_none());
    assert!(Catalog::new(vec![game(GameName::Minecraft, "a/one"), game(GameName::Valheim, ":")])
        .is_none());
}

#[test]
fn catalog_new_keeps_the_games_in_order() {
    let games = vec![
        game(GameName::Valheim, "b/valheim"),
        game(GameName::Minecraft, "registry/mc"),
    ];
    let catalog = Catalog::new(games.clone()).unwrap();
    assert_eq!(catalog.games(), &games);
    assert_eq!(catalog.find_by_image("registry/mc:1.2").map(|g| g.name), Some(GameName::Minecraft));
    assert_eq!(catalog.resolve(&key("e")), Err(GameResolutionError::Ambiguous(vec![
        GameName::Valheim,
        GameName::Minecraft
    ])));
}

#[test]
fn unknown_game_message_names_the_identifier() {
    assert_eq!(Catalog::unknown_game_message("chess"), "Unable to find a game matching `chess`");
    assert_eq!(Catalog::unknown_game_message(""), "Unable to find a game matching ``");
}
