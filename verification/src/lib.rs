//! Sessions with a coding agent that runs as a process of its own.
//!
//! The library owns the rules: the table of sessions and the state machine
//! of each ([`registry`], [`session`]), the requests that wait for a human
//! decision ([`approval`]), the records exchanged with the agent
//! ([`protocol`], [`codec`]), and what holds of all of them together
//! ([`guarantees`]). It talks to no process: what is to be written to an
//! agent is queued, and what an agent did is handed in.
//!
//! Beside the sessions stand the rules for reading and writing files
//! ([`files`]), for finding the agent's executable ([`discovery`]) and for
//! walking the store of past sessions ([`history`]), and the commands of a
//! user interface ([`commands`]).

pub mod approval;
pub mod codec;
pub mod commands;
pub mod discovery;
pub mod error;
pub mod files;
pub mod guarantees;
pub mod history;
pub mod protocol;
pub mod registry;
pub mod sequences;
pub mod session;
pub mod text;
