//! A git-hook- and filesystem-change-triggered pipeline runner: pipelines
//! declared by the user run when a matching git hook fires, when a file
//! change is observed, or on direct invocation, and every run is recorded
//! as a structured, append-only log.
//!
//! The library holds the decisions: which pipelines an invocation context
//! makes eligible ([`trigger`]), when a process turns itself into a
//! background one and how a stale sibling is found ([`process`]), how run
//! history is recorded and read back ([`logs`], [`store`]), how a run walks
//! its state machine ([`runner`]), and how the watcher reacts to a batch of
//! filesystem events ([`watcher`]). Performing the effects those decisions
//! call for — spawning, signalling, file and terminal I/O — is the embedding
//! program's business.

pub mod actions;
pub mod dates;
pub mod error;
pub mod git;
pub mod logs;
pub mod process;
pub mod runner;
pub mod store;
pub mod text;
pub mod trigger;
pub mod watcher;
