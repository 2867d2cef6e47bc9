//! Decision engine of a launcher for side-by-side installations of Bitwig
//! Studio: which versions are installed, which one to start, and what to
//! remember for the next run.

pub mod config;
pub mod engine;
pub mod laws;
pub mod scanner;
pub mod store;
pub mod text;
pub mod ui;
pub mod versions;

pub use config::{Config, DEFAULT_PATH};
pub use engine::{Action, Engine, Event, LaunchError, Stage};
pub use scanner::{get_versions, Candidate, ENTRY_FILE};
pub use store::{LoadError, Startup, StartupError, StoreAction, StoreEvent, WriteError};
pub use ui::Id;
pub use versions::VersionSet;
