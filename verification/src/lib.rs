//! The logic of a small command-line tool that runs the test command of a C project and
//! remembers it: reading settings as the configuration tool writes them, finding the
//! project root, judging the outcome of the command, storing what was run, and
//! committing the tool's own directory.
//!
//! Nothing here touches the file system or starts a process. Each module takes what the
//! caller has seen, as plain values, and says what it means and what to do next.

pub mod config_helper;
pub mod error;
pub mod executor;
pub mod git_helper;
pub mod nesting;
pub mod project_root;
pub mod settings;
pub mod text;
pub mod workflow;
