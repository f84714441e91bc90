//! The engine behind the Noctalia command line: installing, updating and
//! driving the Noctalia shell.
//!
//! The library decides and computes; it reads no file, sends no request and
//! runs no program. Its caller does that and hands over what it found. The
//! one thing the library asks of its surroundings is where the user's
//! configuration lives. Every function states what it returns in terms of the
//! text, lists and maps that its arguments stand for.
//!
//! - `config`: the recorded state of each component.
//! - `source`: which upstream channel a command works on.
//! - `distro`: the distribution family of the host.
//! - `packages`: the system packages that the shell needs.
//! - `fetch`: upstream addresses, answers and the update decision.
//! - `archive`: putting an unpacked archive in place.
//! - `flow`: the stages of an install or update.
//! - `ipc`: the control surface of the running shell.
//! - `service`: the shell as a user service.
//! - `paths`, `shell`, `text`: paths, shell quoting and text helpers.

pub mod archive;
pub mod config;
pub mod distro;
pub mod fetch;
pub mod flow;
pub mod ipc;
pub mod packages;
pub mod paths;
pub mod service;
pub mod shell;
pub mod source;
pub mod text;

pub use config::SourceKind;
