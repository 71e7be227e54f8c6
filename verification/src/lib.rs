//! A command host for a desktop application shell.
//!
//! The host owns a registry of named operations and dispatches incoming
//! invocation requests from a front-end surface to the matching handler,
//! returning the handler's string result or an error. Two operations are
//! built in: `greet`, which formats a fixed greeting around the caller's
//! name, and `test_python_connection`, a placeholder acknowledgement for an
//! intended backend integration. Both handlers are pure: their results are
//! pinned, character for character, by their contracts.

pub mod commands;
pub mod host;
