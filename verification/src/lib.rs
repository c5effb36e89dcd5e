//! Verified core of a line-oriented remote command-execution engine.
//!
//! The library covers the logic of the engine: tokenizing a command line,
//! parsing it into a pipeline of command specifications, planning how each
//! stage's standard streams are wired, running builtins against an explicit
//! environment, tracking the foreground process for signal delivery,
//! dispatching protocol lines, and framing file transfers.  The surrounding
//! transport, process spawning and terminal plumbing are left to an
//! unverified shell around this crate.

pub mod builtins;
pub mod client;
pub mod environ;
pub mod expand;
pub mod lexer;
pub mod pipeline;
pub mod platform;
pub mod proxy;
pub mod registry;
pub mod session;
pub mod spawn;
pub mod text;
pub mod transfer;
