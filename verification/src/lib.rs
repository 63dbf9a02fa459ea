//! A sandboxed, verified command interpreter for a TLS-encrypted remote shell.
//!
//! The library owns the server's command pipeline: lexing a raw input line
//! into commands and operators, dispatching each command to its built-in
//! handler, and driving the operator-directed data flow (pipes, redirections,
//! short-circuit logic) over an in-memory model of the sandboxed directory
//! tree.  The network loop, TLS handshake and real filesystem sit outside,
//! in the surrounding application, which loads the directory tree into the
//! model and serves it from then on.

pub mod commands;
pub mod config;
pub mod format;
pub mod fs_model;
pub mod handler;
pub mod laws;
pub mod lexer;
pub mod login;
pub mod operation;
pub mod path;
pub mod pem;
pub mod registry;
pub mod runner;
pub mod strutil;
