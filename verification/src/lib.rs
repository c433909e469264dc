//! Scheduling core of a local emulator for a function control plane.
//!
//! The crate decides, for every invocation of a named function, whether a
//! backing process has to be started, keeps the requests that wait for that
//! process in order, and says what a function's runner has to do when its
//! process ends or the server shuts down. All of it is plain data and
//! transitions on plain data: the channels, tasks and processes that carry
//! the decisions out live with the caller.

pub mod cache;
pub mod cli;
pub mod command;
pub mod extensions;
pub mod guarantees;
pub mod names;
pub mod request;
pub mod runner;
pub mod scheduler;
pub mod state;
pub mod watcher;
