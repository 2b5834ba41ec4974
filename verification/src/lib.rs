//! Catalog-driven queries and the lifecycle of short-lived game servers
//! that run as containers.
//!
//! The library decides; it asks nothing of the container runtime itself.
//! It resolves the identifier of a game against the catalog, puts together
//! the filter that the runtime's list is asked with, tells which of the
//! containers that come back are servers, puts together the request to
//! create a container, and says, event by event, what a run of a
//! temporary server has to do next.

pub mod cli;
pub mod game;
pub mod runtime;
pub mod server;
pub mod text;

pub use cli::LowerCaseString;
pub use cli::ShellType;
pub use game::Catalog;
pub use game::Game;
pub use game::GameName;
pub use game::GameResolutionError;
pub use game::PortConfiguration;
pub use game::Version;
pub use game::VersionConfiguration;
pub use game::VersionLs;
pub use runtime::ContainerState;
pub use runtime::PortType;
pub use server::info::Port;
pub use server::info::RuntimeContainerRecord;
pub use server::info::ServerInfo;
pub use server::ls::ls;
pub use server::ls::ServerFilter;
pub use server::tmp::GameOptions;
pub use server::tmp::Tmp;
