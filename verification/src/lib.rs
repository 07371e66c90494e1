//! The verified core of the MagicBevy editor: its menu registry, compile
//! status and compiler switches, the file-watch and compile decisions, the
//! package profile generation, the editor system lifecycle, and the
//! `magic_pkg` command line.

pub mod compile;
pub mod compiler;
pub mod indicator;
pub mod manifest_laws;
pub mod menu;
pub mod pkg_cli;
pub mod profiles;
pub mod status;
pub mod systems;
pub mod text;
pub mod watcher;

pub use compiler::{CompilerLockMode, EngineCompilerState};
pub use menu::MenuRegistry;
pub use status::CompilerStateManager;
