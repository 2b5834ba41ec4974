//! The games that can be run, and how each is launched.

use crate::cli::LowerCaseString;
use crate::runtime::PortType;
use crate::text::contains;
use crate::text::find_char;
use crate::text::is_first_position;
use crate::text::is_substring;
use crate::text::join;
use crate::text::lowercase;
use crate::text::occurs_at;
use crate::text::same_text;
use vstd::prelude::*;
use vstd::string::*;

verus! {

/// The ports that a game's container listens on.
#[derive(Clone, Debug, PartialEq, Eq)]
pub enum PortConfiguration {
    /// A fixed set of container ports.
    NonConfigurable(&'static [(u16, PortType)]),
    /// One container port, published on a host port chosen at launch.
    SinglePort(u16, PortType),
}

/// How a game's version is chosen, and what to tell the operator about it.
#[derive(Clone, Debug, PartialEq, Eq)]
pub struct Version {
    pub config: VersionConfiguration,
    pub ls: VersionLs,
}

/// The way a requested version reaches the container.
#[derive(Clone, Debug, PartialEq, Eq)]
pub enum VersionConfiguration {
    /// As the tag of the image.
    Tag,
    /// As the value of the environment variable of this name.
    Env(&'static str),
    /// Not at all.
    NotConfigurable,
}

/// What is known about the versions that can be asked for.
#[derive(Clone, Debug, PartialEq, Eq)]
pub enum VersionLs {
    /// Guidance for the operator.
    Help(&'static str),
    /// Nothing.
    NoHelp,
}

/// The name of a supported game.
#[derive(Clone, Copy, Debug, PartialEq, Eq, Structural)]
pub enum GameName {
    Minecraft,
    Factorio,
    Valheim,
}

impl GameName {
    /// The name as it is written: in lower case.
    pub open spec fn text(self) -> Seq<char> {
        match self {
            GameName::Minecraft => "minecraft"@,
            GameName::Factorio => "factorio"@,
            GameName::Valheim => "valheim"@,
        }
    }

    /// The name as it is written.
    pub fn as_str(&self) -> (r: &'static str)
        ensures
            r@ == self.text(),
    {
        match self {
            GameName::Minecraft => "minecraft",
            GameName::Factorio => "factorio",
            GameName::Valheim => "valheim",
        }
    }

    /// The name as it is declared.
    pub open spec fn identifier_text(self) -> Seq<char> {
        match self {
            GameName::Minecraft => "Minecraft"@,
            GameName::Factorio => "Factorio"@,
            GameName::Valheim => "Valheim"@,
        }
    }

    /// The name as it is declared.
    pub fn identifier(&self) -> (r: &'static str)
        ensures
            r@ == self.identifier_text(),
    {
        match self {
            GameName::Minecraft => "Minecraft",
            GameName::Factorio => "Factorio",
            GameName::Valheim => "Valheim",
        }
    }

    /// Two names that are written alike are the same name.
    pub proof fn lemma_text_injective(a: GameName, b: GameName)
        ensures
            a.text() == b.text() <==> a == b,
    {
        reveal_strlit("minecraft");
        reveal_strlit("factorio");
        reveal_strlit("valheim");
        assert("minecraft"@.len() == 9);
        assert("factorio"@.len() == 8);
        assert("valheim"@.len() == 7);
    }
}

impl std::ops::Deref for GameName {
    type Target = str;

    fn deref(&self) -> (r: &str)
        ensures
            r@ == self.text(),
    {
        self.as_str()
    }
}

/// A supported game and what it takes to launch it.
#[derive(Clone, Debug, PartialEq, Eq)]
pub struct Game {
    pub name: GameName,
    /// The image to run, without a tag.
    pub image: &'static str,
    pub ports: PortConfiguration,
    /// Environment assignments that every container of the game gets.
    pub envs: &'static [&'static str],
    pub version: Version,
}

/// Why an identifier names no game.
#[derive(Clone, Debug, PartialEq, Eq)]
pub enum GameResolutionError {
    /// No game has the identifier as its name or within its name.
    NotFound,
    /// Several games have the identifier within their names: these.
    Ambiguous(Vec<GameName>),
}

/// An image reference without its tag: what stands before the first colon,
/// or all of it where it has no colon.
pub open spec fn bare_image(image: Seq<char>) -> Seq<char> {
    if image.contains(':') {
        image.take(choose|at: int| is_first_position(image, ':', at))
    } else {
        image
    }
}

/// The game at position `at` has the image `bare`.
pub open spec fn holds_image(games: Seq<Game>, bare: Seq<char>, at: int) -> bool {
    0 <= at < games.len() && games[at].image@ == bare
}

/// The game at position `at` is written `key`.
pub open spec fn holds_name(games: Seq<Game>, key: Seq<char>, at: int) -> bool {
    0 <= at < games.len() && games[at].name.text() == key
}

/// The game at position `at` is called `name`.
pub open spec fn holds_game(games: Seq<Game>, name: GameName, at: int) -> bool {
    0 <= at < games.len() && games[at].name == name
}

/// Position of the game whose image is `bare`.
pub open spec fn image_index(games: Seq<Game>, bare: Seq<char>) -> Option<int> {
    if exists|at: int| holds_image(games, bare, at) {
        Some(choose|at: int| holds_image(games, bare, at))
    } else {
        None
    }
}

/// Position of the game that is written `key`.
pub open spec fn name_index(games: Seq<Game>, key: Seq<char>) -> Option<int> {
    if exists|at: int| holds_name(games, key, at) {
        Some(choose|at: int| holds_name(games, key, at))
    } else {
        None
    }
}

/// Position of the game called `name`.
pub open spec fn game_index(games: Seq<Game>, name: GameName) -> Option<int> {
    if exists|at: int| holds_game(games, name, at) {
        Some(choose|at: int| holds_game(games, name, at))
    } else {
        None
    }
}

/// The names of the games that have `key` within their names, in the order
/// of the catalog.
pub open spec fn candidates(games: Seq<Game>, key: Seq<char>) -> Seq<GameName>
    decreases games.len(),
{
    if games.len() == 0 {
        Seq::empty()
    } else if is_substring(key, games.last().name.text()) {
        candidates(games.drop_last(), key).push(games.last().name)
    } else {
        candidates(games.drop_last(), key)
    }
}

/// Why an identifier names no game, as plain values.
pub enum ResolutionFailure {
    NotFound,
    Ambiguous(Seq<GameName>),
}

impl View for GameResolutionError {
    type V = ResolutionFailure;

    open spec fn view(&self) -> ResolutionFailure {
        match self {
            GameResolutionError::NotFound => ResolutionFailure::NotFound,
            GameResolutionError::Ambiguous(found) => ResolutionFailure::Ambiguous(found@),
        }
    }
}

/// Resolution of an identifier, as a position in the catalog: the game of
/// that name; failing that, the one game that has the identifier within
/// its name.
pub open spec fn resolution(games: Seq<Game>, key: Seq<char>) -> Result<int, ResolutionFailure> {
    match name_index(games, key) {
        Some(at) => Ok(at),
        None => {
            let found = candidates(games, key);
            if found.len() == 0 {
                Err(ResolutionFailure::NotFound)
            } else if found.len() == 1 {
                match game_index(games, found[0]) {
                    Some(at) => Ok(at),
                    None => Err(ResolutionFailure::NotFound),
                }
            } else {
                Err(ResolutionFailure::Ambiguous(found))
            }
        },
    }
}

/// No two games share a name or an image, and no image carries a tag.
pub open spec fn well_formed(games: Seq<Game>) -> bool {
    &&& forall|i: int, j: int|
        0 <= i < j < games.len() ==> (#[trigger] games[i]).name != (#[trigger] games[j]).name
    &&& forall|i: int, j: int|
        0 <= i < j < games.len() ==> (#[trigger] games[i]).image@ != (#[trigger] games[j]).image@
    &&& forall|i: int| 0 <= i < games.len() ==> !(#[trigger] games[i]).image@.contains(':')
}

/// The three games that this tool supports, each with its launch data.
pub open spec fn is_builtin(games: Seq<Game>) -> bool {
    &&& games.len() == 3
    &&& games[0].name == GameName::Minecraft
    &&& games[0].image@ == "docker.io/itzg/minecraft-server"@
    &&& games[0].ports matches PortConfiguration::SinglePort(port, typ) && port == 25565 && typ
        == PortType::Tcp
    &&& games[0].envs@.len() == 1
    &&& games[0].envs@[0]@ == "EULA=TRUE"@
    &&& games[0].version.config matches VersionConfiguration::Env(variable) && variable@
        == "VERSION"@
    &&& games[0].version.ls is Help
    &&& games[1].name == GameName::Factorio
    &&& games[1].image@ == "docker.io/factoriotools/factorio"@
    &&& games[1].ports matches PortConfiguration::SinglePort(port, typ) && port == 34197 && typ
        == PortType::Udp
    &&& games[1].envs@.len() == 0
    &&& games[1].version.config is Tag
    &&& games[1].version.ls is Help
    &&& games[2].name == GameName::Valheim
    &&& games[2].image@ == "docker.io/lloesche/valheim-server"@
    &&& games[2].ports matches PortConfiguration::NonConfigurable(ports) && ports@ == seq![
        (2456u16, PortType::Udp),
        (2457u16, PortType::Udp),
        (2458u16, PortType::Udp),
    ]
    &&& games[2].envs@.len() == 0
    &&& games[2].version.config is NotConfigurable
    &&& games[2].version.ls is NoHelp
}

/// The supported games form a catalog.
pub proof fn lemma_builtin_well_formed(games: Seq<Game>)
    requires
        is_builtin(games),
    ensures
        well_formed(games),
{
    reveal_strlit("docker.io/itzg/minecraft-server");
    reveal_strlit("docker.io/factoriotools/factorio");
    reveal_strlit("docker.io/lloesche/valheim-server");
    let a = "docker.io/itzg/minecraft-server"@;
    let b = "docker.io/factoriotools/factorio"@;
    let c = "docker.io/lloesche/valheim-server"@;
    assert(a.len() == 31);
    assert(b.len() == 32);
    assert(c.len() == 33);
    assert(!a.contains(':'));
    assert(!b.contains(':'));
    assert(!c.contains(':'));
}

/// The text of `image_name` before its tag.
pub fn strip_tag(image_name: &str) -> (r: &str)
    ensures
        r@ == bare_image(image_name@),
{
    match find_char(image_name, ':') {
        Some(at) => {
            proof {
                let chosen = choose|k: int| is_first_position(image_name@, ':', k);
                assert(is_first_position(image_name@, ':', at as int));
                assert(chosen == at);
            }
            image_name.substring_char(0, at)
        },
        None => image_name,
    }
}

/// The supported games: a closed list in which no name and no image occurs
/// twice.
#[derive(Debug)]
pub struct Catalog {
    games: Vec<Game>,
}

impl View for Catalog {
    type V = Seq<Game>;

    /// The games, in order.
    closed spec fn view(&self) -> Seq<Game> {
        self.games@
    }
}

impl Catalog {
    /// What holds of every catalog: `well_formed` of its games.
    #[verifier::type_invariant]
    pub open spec fn wf(&self) -> bool {
        well_formed(self@)
    }

    /// A catalog of the given games, if no two of them share a name or an
    /// image and no image carries a tag.
    pub fn new(games: Vec<Game>) -> (r: Option<Catalog>)
        ensures
            r is Some <==> well_formed(games@),
            r matches Some(c) ==> c@ == games@ && c.wf(),
    {
        let n = games.len();
        let mut i: usize = 0;
        while i < n
            invariant
                i <= n,
                n == games@.len(),
                well_formed(games@.take(i as int)),
            decreases n - i,
        {
            if find_char(games[i].image, ':').is_some() {
                return None;
            }
            let mut j: usize = 0;
            while j < i
                invariant
                    j <= i,
                    i < n,
                    n == games@.len(),
                    forall|k: int| 0 <= k < j ==> games@[k].name != games@[i as int].name,
                    forall|k: int| 0 <= k < j ==> games@[k].image@ != games@[i as int].image@,
                decreases i - j,
            {
                if games[j].name == games[i].name || same_text(games[j].image, games[i].image) {
                    return None;
                }
                j += 1;
            }
            proof {
                let before = games@.take(i as int);
                let after = games@.take(i + 1);
                assert forall|a: int, b: int| 0 <= a < b < after.len() implies (#[trigger] after[a]).name
                    != (#[trigger] after[b]).name && after[a].image@ != after[b].image@ by {
                    if b < i {
                        assert(before[a] == after[a] && before[b] == after[b]);
                    }
                }
                assert forall|a: int| 0 <= a < after.len() implies !(#[trigger] after[a]).image@.contains(
                    ':',
                ) by {
                    if a < i {
                        assert(before[a] == after[a]);
                    }
                }
            }
            i += 1;
        }
        assert(games@.take(n as int) =~= games@);
        Some(Catalog { games })
    }

    /// The catalog's games, in order.
    pub fn games(&self) -> (r: &Vec<Game>)
        ensures
            r@ == self@,
            well_formed(r@),
    {
        proof {
            use_type_invariant(self);
        }
        &self.games
    }

    /// The game called `name`, if the catalog has it.
    pub fn get(&self, name: GameName) -> (r: Option<&Game>)
        ensures
            match game_index(self@, name) {
                Some(at) => r == Some(&self@[at]),
                None => r is None,
            },
    {
        proof {
            use_type_invariant(self);
        }
        let n = self.games.len();
        let mut i: usize = 0;
        while i < n
            invariant
                i <= n,
                n == self.games@.len(),
                well_formed(self.games@),
                forall|k: int| 0 <= k < i ==> !holds_game(self.games@, name, k),
            decreases n - i,
        {
            if self.games[i].name == name {
                proof {
                    assert(holds_game(self.games@, name, i as int));
                    let chosen = choose|at: int| holds_game(self.games@, name, at);
                    assert(chosen == i);
                }
                return Some(&self.games[i]);
            }
            i += 1;
        }
        None
    }

    /// The game whose image `image_name` refers to, with or without a tag.
    pub fn find_by_image(&self, image_name: &str) -> (r: Option<&Game>)
        ensures
            match image_index(self@, bare_image(image_name@)) {
                Some(at) => r == Some(&self@[at]),
                None => r is None,
            },
    {
        proof {
            use_type_invariant(self);
        }
        let bare = strip_tag(image_name);
        let n = self.games.len();
        let mut i: usize = 0;
        while i < n
            invariant
                i <= n,
                n == self.games@.len(),
                well_formed(self.games@),
                bare@ == bare_image(image_name@),
                forall|k: int| 0 <= k < i ==> !holds_image(self.games@, bare@, k),
            decreases n - i,
        {
            if same_text(self.games[i].image, bare) {
                proof {
                    assert(holds_image(self.games@, bare@, i as int));
                    let chosen = choose|at: int| holds_image(self.games@, bare@, at);
                    assert(chosen == i);
                }
                return Some(&self.games[i]);
            }
            i += 1;
        }
        None
    }

    /// The games that this tool supports.
    pub fn builtin() -> (r: Catalog)
        ensures
            is_builtin(r@),
            r.wf(),
    {
        let mut games: Vec<Game> = Vec::new();
        games.push(
            Game {
                name: GameName::Minecraft,
                image: "docker.io/itzg/minecraft-server",
                ports: PortConfiguration::SinglePort(25565, PortType::Tcp),
                envs: &["EULA=TRUE"],
                version: Version {
                    config: VersionConfiguration::Env("VERSION"),
                    ls: VersionLs::Help(
                        "You can either specify `LATEST` (the default) to run the latest stable version, `SNAPSHOT` to run the latest snapshot, or you can specify the version directly e.g. `1.7.2` or `21w11a` ",
                    ),
                },
            },
        );
        games.push(
            Game {
                name: GameName::Factorio,
                image: "docker.io/factoriotools/factorio",
                ports: PortConfiguration::SinglePort(34197, PortType::Udp),
                envs: &[],
                version: Version {
                    config: VersionConfiguration::Tag,
                    ls: VersionLs::Help(
                        "You can either specify `latest` (the default) to run the latest (maybe experimental) version, `stable` to run the latest stable version, or you can specify the version directly e.g. `1.1` or `0.15.40`. You can also look for availible versions at https://hub.docker.com/r/factoriotools/factorio/tags.",
                    ),
                },
            },
        );
        games.push(
            Game {
                name: GameName::Valheim,
                image: "docker.io/lloesche/valheim-server",
                ports: PortConfiguration::NonConfigurable(
                    &[(2456, PortType::Udp), (2457, PortType::Udp), (2458, PortType::Udp)],
                ),
                envs: &[],
                version: Version {
                    config: VersionConfiguration::NotConfigurable,
                    ls: VersionLs::NoHelp,
                },
            },
        );
        proof {
            lemma_builtin_well_formed(games@);
        }
        Catalog { games }
    }

    /// The game that is written exactly as `game_name`.
    pub fn find_by_name(&self, game_name: &LowerCaseString) -> (r: Option<&Game>)
        ensures
            match name_index(self@, game_name@) {
                Some(at) => r == Some(&self@[at]),
                None => r is None,
            },
    {
        proof {
            use_type_invariant(self);
        }
        let key = game_name.as_str();
        let n = self.games.len();
        let mut i: usize = 0;
        while i < n
            invariant
                i <= n,
                n == self.games@.len(),
                key@ == game_name@,
                well_formed(self.games@),
                forall|k: int| 0 <= k < i ==> !holds_name(self.games@, key@, k),
            decreases n - i,
        {
            if same_text(self.games[i].name.as_str(), key) {
                proof {
                    assert(holds_name(self.games@, key@, i as int));
                    let chosen = choose|at: int| holds_name(self.games@, key@, at);
                    GameName::lemma_text_injective(
                        self.games@[chosen].name,
                        self.games@[i as int].name,
                    );
                    assert(chosen == i);
                }
                return Some(&self.games[i]);
            }
            i += 1;
        }
        None
    }

    /// What the operator is told of the games that can be run.
    pub fn listing(&self) -> (r: String)
        ensures
            r@ == "Availible Games:\n"@ + name_lines(self@),
    {
        let mut r = "Availible Games:\n".to_owned();
        let ghost lead = r@;
        let n = self.games.len();
        let mut i: usize = 0;
        assert(r@ =~= lead + name_lines(self.games@.take(0)));
        while i < n
            invariant
                i <= n,
                n == self.games@.len(),
                r@ == lead + name_lines(self.games@.take(i as int)),
            decreases n - i,
        {
            proof {
                let before = self.games@.take(i as int);
                let after = self.games@.take(i + 1);
                assert(after.drop_last() =~= before);
                assert(after.last() == self.games@[i as int]);
                if i == 1 {
                    assert(before[0] == self.games@[0]);
                }
            }
            if i > 0 {
                r.append("\n");
            }
            r.append(self.games[i].name.as_str());
            proof {
                let before = self.games@.take(i as int);
                let after = self.games@.take(i + 1);
                if i == 0 {
                    assert(name_lines(before) =~= Seq::<char>::empty());
                }
                assert(r@ =~= lead + name_lines(after));
            }
            i += 1;
        }
        proof {
            assert(self.games@.take(n as int) =~= self.games@);
        }
        r
    }

    /// What the operator is told when `identifier` is the name of no game.
    pub fn unknown_game_message(identifier: &str) -> (r: String)
        ensures
            r@ == "Unable to find a game matching `"@ + identifier@ + "`"@,
    {
        let mut r = join("Unable to find a game matching `", identifier);
        r.append("`");
        r
    }

    /// The game that `s` names when case is ignored.
    pub fn game_from_str(&self, s: &str) -> (r: Result<&Game, GameResolutionError>)
        ensures
            match name_index(self@, lowercase(s@)) {
                Some(at) => r == Ok::<&Game, GameResolutionError>(&self@[at]),
                None => r matches Err(e) && e@ == ResolutionFailure::NotFound,
            },
    {
        match self.find_by_name(&LowerCaseString::new(s)) {
            Some(game) => Ok(game),
            None => Err(GameResolutionError::NotFound),
        }
    }

    /// The game that an identifier stands for: the one of that name, or
    /// else the only one that has the identifier within its name.
    pub fn resolve(&self, identifier: &LowerCaseString) -> (r: Result<&Game, GameResolutionError>)
        ensures
            match resolution(self@, identifier@) {
                Ok(at) => r == Ok::<&Game, GameResolutionError>(&self@[at]),
                Err(failure) => r matches Err(e) && e@ == failure,
            },
    {
        proof {
            use_type_invariant(self);
        }
        match self.find_by_name(identifier) {
            Some(game) => {
                return Ok(game);
            },
            None => {},
        }
        let key = identifier.as_str();
        let n = self.games.len();
        let mut found: Vec<GameName> = Vec::new();
        let mut first: usize = 0;
        let mut i: usize = 0;
        while i < n
            invariant
                i <= n,
                n == self.games@.len(),
                key@ == identifier@,
                found@ == candidates(self.games@.take(i as int), key@),
                found@.len() > 0 ==> first < n && self.games@[first as int].name == found@[0],
            decreases n - i,
        {
            proof {
                let before = self.games@.take(i as int);
                let after = self.games@.take(i + 1);
                assert(after.drop_last() =~= before);
                assert(after.last() == self.games@[i as int]);
            }
            if contains(self.games[i].name.as_str(), key) {
                if found.len() == 0 {
                    first = i;
                }
                found.push(self.games[i].name);
            }
            i += 1;
        }
        proof {
            assert(self.games@.take(n as int) =~= self.games@);
        }
        if found.len() == 0 {
            Err(GameResolutionError::NotFound)
        } else if found.len() == 1 {
            proof {
                assert(holds_game(self.games@, found@[0], first as int));
                let chosen = choose|at: int| holds_game(self.games@, found@[0], at);
                assert(chosen == first);
            }
            Ok(&self.games[first])
        } else {
            Err(GameResolutionError::Ambiguous(found))
        }
    }
}

/// The names of the games, one on each line.
pub open spec fn name_lines(games: Seq<Game>) -> Seq<char>
    decreases games.len(),
{
    if games.len() == 0 {
        Seq::empty()
    } else if games.len() == 1 {
        games[0].name.text()
    } else {
        name_lines(games.drop_last()) + "\n"@ + games.last().name.text()
    }
}

/// The names between backquotes, with a comma and a space between one and
/// the next.
pub open spec fn quoted_names(names: Seq<GameName>) -> Seq<char>
    decreases names.len(),
{
    if names.len() == 0 {
        Seq::empty()
    } else if names.len() == 1 {
        "`"@ + names[0].text() + "`"@
    } else {
        quoted_names(names.drop_last()) + ", "@ + "`"@ + names.last().text() + "`"@
    }
}

impl GameResolutionError {
    /// What the operator is told when `identifier` did not resolve.
    pub open spec fn message_text(self, identifier: Seq<char>) -> Seq<char> {
        match self {
            GameResolutionError::NotFound => "Unable to find a matching game for: `"@ + identifier
                + "`"@,
            GameResolutionError::Ambiguous(found) => "Unable to find unique matching game for: `"@
                + identifier + "`, found: "@ + quoted_names(found@),
        }
    }

    /// What the operator is told when `identifier` did not resolve.
    pub fn message(&self, identifier: &str) -> (r: String)
        ensures
            r@ == self.message_text(identifier@),
    {
        match self {
            GameResolutionError::NotFound => {
                let mut r = join("Unable to find a matching game for: `", identifier);
                r.append("`");
                r
            },
            GameResolutionError::Ambiguous(found) => {
                let mut r = join("Unable to find unique matching game for: `", identifier);
                r.append("`, found: ");
                let ghost lead = r@;
                let n = found.len();
                let mut i: usize = 0;
                while i < n
                    invariant
                        i <= n,
                        n == found@.len(),
                        r@ == lead + quoted_names(found@.take(i as int)),
                    decreases n - i,
                {
                    proof {
                        let before = found@.take(i as int);
                        let after = found@.take(i + 1);
                        assert(after.drop_last() =~= before);
                        assert(after.last() == found@[i as int]);
                    }
                    if i > 0 {
                        r.append(", ");
                    }
                    r.append("`");
                    r.append(found[i].as_str());
                    r.append("`");
                    proof {
                        let before = found@.take(i as int);
                        let after = found@.take(i + 1);
                        if i == 0 {
                            assert(quoted_names(before) =~= Seq::<char>::empty());
                            assert(r@ =~= lead + quoted_names(after));
                        } else {
                            assert(r@ =~= lead + quoted_names(after));
                        }
                    }
                    i += 1;
                }
                proof {
                    assert(found@.take(n as int) =~= found@);
                }
                r
            },
        }
    }
}

/// `name` is the name of a game that has `key` within its name.
pub open spec fn is_candidate(games: Seq<Game>, key: Seq<char>, name: GameName) -> bool {
    exists|at: int| holds_game(games, name, at) && is_substring(key, name.text())
}

/// What the list of candidates holds: the name of every game that has the
/// identifier within its name, each once, and nothing else.
pub proof fn lemma_candidates(games: Seq<Game>, key: Seq<char>)
    requires
        well_formed(games),
    ensures
        forall|name: GameName| #[trigger]
            candidates(games, key).contains(name) <==> is_candidate(games, key, name),
        candidates(games, key).no_duplicates(),
    decreases games.len(),
{
    let found = candidates(games, key);
    if games.len() == 0 {
        assert forall|name: GameName| !is_candidate(games, key, name) by {
            if is_candidate(games, key, name) {
                let at = choose|at: int| holds_game(games, name, at) && is_substring(key, name.text());
                assert(holds_game(games, name, at));
            }
        }
    } else {
        let rest = games.drop_last();
        let last = games.last();
        assert forall|i: int| 0 <= i < rest.len() implies #[trigger] rest[i] == games[i] by {}
        assert(well_formed(rest)) by {
            assert forall|i: int, j: int| 0 <= i < j < rest.len() implies (#[trigger] rest[i]).name
                != (#[trigger] rest[j]).name && rest[i].image@ != rest[j].image@ by {
                assert(rest[i] == games[i] && rest[j] == games[j]);
            }
            assert forall|i: int| 0 <= i < rest.len() implies !(#[trigger] rest[i]).image@.contains(
                ':',
            ) by {
                assert(rest[i] == games[i]);
            }
        }
        lemma_candidates(rest, key);
        let shorter = candidates(rest, key);
        assert forall|name: GameName| #[trigger]
            found.contains(name) <==> is_candidate(games, key, name) by {
            if found.contains(name) {
                if shorter.contains(name) {
                    assert(is_candidate(rest, key, name));
                    let at = choose|at: int|
                        holds_game(rest, name, at) && is_substring(key, name.text());
                    assert(holds_game(games, name, at));
                } else {
                    let k = choose|k: int| 0 <= k < found.len() && found[k] == name;
                    assert(found == shorter.push(last.name));
                    assert(k == shorter.len());
                    assert(holds_game(games, name, games.len() - 1));
                }
            }
            if is_candidate(games, key, name) {
                let at = choose|at: int|
                    holds_game(games, name, at) && is_substring(key, name.text());
                if at < rest.len() {
                    assert(holds_game(rest, name, at));
                    assert(is_candidate(rest, key, name));
                    assert(shorter.contains(name));
                    let k = choose|k: int| 0 <= k < shorter.len() && shorter[k] == name;
                    assert(found[k] == name);
                } else {
                    assert(found == shorter.push(last.name));
                    assert(found[shorter.len() as int] == name);
                }
            }
        }
        if is_substring(key, last.name.text()) {
            assert(!shorter.contains(last.name)) by {
                if shorter.contains(last.name) {
                    assert(is_candidate(rest, key, last.name));
                    let at = choose|at: int|
                        holds_game(rest, last.name, at) && is_substring(key, last.name.text());
                    assert(games[at].name == games[games.len() - 1].name);
                }
            }
            assert(found.no_duplicates()) by {
                assert forall|i: int, j: int|
                    0 <= i < found.len() && 0 <= j < found.len() && i != j implies found[i]
                    != found[j] by {
                    if i < shorter.len() {
                        assert(shorter.contains(found[i]));
                    }
                    if j < shorter.len() {
                        assert(shorter.contains(found[j]));
                    }
                }
            }
        }
    }
}

/// An image reference with a tag strips to what it strips to without it.
pub proof fn lemma_bare_image_ignores_tag(image: Seq<char>, tag: Seq<char>)
    ensures
        bare_image(image + ":"@ + tag) == bare_image(image),
{
    reveal_strlit(":");
    let tagged = image + ":"@ + tag;
    assert(":"@.len() == 1 && ":"@[0] == ':');
    assert(tagged[image.len() as int] == ':');
    assert(tagged.contains(':'));
    let chosen = choose|at: int| is_first_position(tagged, ':', at);
    if image.contains(':') {
        let k = choose|k: int| 0 <= k < image.len() && image[k] == ':';
        let first = choose|at: int| is_first_position(image, ':', at);
        lemma_first_position_exists(image, ':', k);
        assert(is_first_position(image, ':', first));
        assert(is_first_position(tagged, ':', first)) by {
            assert(tagged[first] == image[first]);
            assert forall|j: int| 0 <= j < first implies tagged[j] != ':' by {
                assert(tagged[j] == image[j]);
            }
        }
        assert(chosen == first);
        assert(tagged.take(first) =~= image.take(first));
    } else {
        let end = image.len() as int;
        assert(is_first_position(tagged, ':', end)) by {
            assert forall|j: int| 0 <= j < end implies tagged[j] != ':' by {
                assert(tagged[j] == image[j]);
            }
        }
        assert(chosen == end);
        assert(tagged.take(end) =~= image);
    }
}

/// A text that holds `c` at position `at` has a first position of `c`.
pub proof fn lemma_first_position_exists(s: Seq<char>, c: char, at: int)
    requires
        0 <= at < s.len(),
        s[at] == c,
    ensures
        exists|first: int| is_first_position(s, c, first),
    decreases at,
{
    if exists|j: int| 0 <= j < at && s[j] == c {
        let j = choose|j: int| 0 <= j < at && s[j] == c;
        lemma_first_position_exists(s, c, j);
    } else {
        assert(is_first_position(s, c, at));
    }
}

/// Looking a game up by its image gives the same answer whether or not the
/// image reference carries a tag, whatever the tag.
pub proof fn law_lookup_ignores_tag(games: Seq<Game>, image: Seq<char>, tag: Seq<char>)
    ensures
        image_index(games, bare_image(image + ":"@ + tag)) == image_index(
            games,
            bare_image(image),
        ),
{
    lemma_bare_image_ignores_tag(image, tag);
}

/// Every game of a catalog is found by its own image, with any tag or with
/// none.
pub proof fn law_game_found_by_image(games: Seq<Game>, at: int, tag: Seq<char>)
    requires
        well_formed(games),
        0 <= at < games.len(),
    ensures
        image_index(games, bare_image(games[at].image@)) == Some(at),
        image_index(games, bare_image(games[at].image@ + ":"@ + tag)) == Some(at),
{
    let image = games[at].image@;
    lemma_bare_image_ignores_tag(image, tag);
    assert(!image.contains(':'));
    assert(holds_image(games, image, at));
    let chosen = choose|k: int| holds_image(games, image, k);
    assert(chosen == at);
}

/// What an identifier resolves to is a game of the catalog.
pub proof fn lemma_resolution_in_catalog(games: Seq<Game>, key: Seq<char>)
    ensures
        resolution(games, key) matches Ok(at) ==> 0 <= at < games.len(),
{
    if exists|at: int| holds_name(games, key, at) {
        let at = choose|at: int| holds_name(games, key, at);
        assert(holds_name(games, key, at));
    } else {
        let found = candidates(games, key);
        if found.len() == 1 && exists|at: int| holds_game(games, found[0], at) {
            let at = choose|at: int| holds_game(games, found[0], at);
            assert(holds_game(games, found[0], at));
        }
    }
}

/// An identifier that is the name of a game resolves to that game.
pub proof fn law_exact_name_resolves(games: Seq<Game>, key: Seq<char>, at: int)
    requires
        well_formed(games),
        holds_name(games, key, at),
    ensures
        resolution(games, key) == Ok::<int, ResolutionFailure>(at),
{
    let chosen = choose|k: int| holds_name(games, key, k);
    GameName::lemma_text_injective(games[chosen].name, games[at].name);
    assert(chosen == at);
}

/// An identifier that is the name of no game and occurs within the name of
/// no game does not resolve.
pub proof fn law_unknown_identifier(games: Seq<Game>, key: Seq<char>)
    requires
        well_formed(games),
        forall|at: int| 0 <= at < games.len() ==> !is_substring(key, (#[trigger] games[at]).name.text()),
    ensures
        resolution(games, key) == Err::<int, ResolutionFailure>(ResolutionFailure::NotFound),
{
    lemma_candidates(games, key);
    let found = candidates(games, key);
    if found.len() > 0 {
        assert(found.contains(found[0]));
        assert(is_candidate(games, key, found[0]));
    }
    if exists|at: int| holds_name(games, key, at) {
        let at = choose|at: int| holds_name(games, key, at);
        assert(key.subrange(0, 0int + key.len()) =~= key);
        assert(occurs_at(key, games[at].name.text(), 0));
    }
}

/// An identifier that is the name of no game and occurs within the name of
/// exactly one game resolves to that game.
pub proof fn law_single_candidate_resolves(games: Seq<Game>, key: Seq<char>, at: int)
    requires
        well_formed(games),
        forall|k: int| 0 <= k < games.len() ==> (#[trigger] games[k]).name.text() != key,
        0 <= at < games.len(),
        forall|k: int|
            0 <= k < games.len() ==> (is_substring(key, (#[trigger] games[k]).name.text()) <==> k
                == at),
    ensures
        resolution(games, key) == Ok::<int, ResolutionFailure>(at),
{
    lemma_candidates(games, key);
    let found = candidates(games, key);
    let name = games[at].name;
    assert(holds_game(games, name, at));
    assert(is_candidate(games, key, name));
    assert(found.contains(name));
    assert forall|k: int| 0 <= k < found.len() implies found[k] == name by {
        assert(found.contains(found[k]));
        assert(is_candidate(games, key, found[k]));
        let w = choose|w: int| holds_game(games, found[k], w) && is_substring(key, found[k].text());
        assert(w == at);
    }
    if found.len() >= 2 {
        assert(found[0] == found[1]);
    }
    let chosen = choose|k: int| holds_game(games, found[0], k);
    assert(chosen == at);
    assert(!(exists|k: int| holds_name(games, key, k)));
}

/// An identifier that is the name of no game and occurs within the names
/// of two or more games is ambiguous, and the names listed are exactly
/// those of the games that have it within their names, each once.
pub proof fn law_ambiguous_identifier(games: Seq<Game>, key: Seq<char>, one: int, other: int)
    requires
        well_formed(games),
        forall|k: int| 0 <= k < games.len() ==> (#[trigger] games[k]).name.text() != key,
        0 <= one < other < games.len(),
        is_substring(key, games[one].name.text()),
        is_substring(key, games[other].name.text()),
    ensures
        resolution(games, key) matches Err(ResolutionFailure::Ambiguous(names))
            && names.no_duplicates()
            && forall|name: GameName| #[trigger]
            names.contains(name) <==> is_candidate(games, key, name),
{
    lemma_candidates(games, key);
    let found = candidates(games, key);
    let a = games[one].name;
    let b = games[other].name;
    assert(holds_game(games, a, one));
    assert(holds_game(games, b, other));
    assert(is_candidate(games, key, a));
    assert(is_candidate(games, key, b));
    assert(found.contains(a));
    assert(found.contains(b));
    assert(a != b);
    assert(!(exists|k: int| holds_name(games, key, k)));
}

} // verus!
