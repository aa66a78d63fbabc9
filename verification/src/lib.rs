//! Decision logic for supervising line-oriented assistant subprocesses: which launch
//! arguments and input route a prompt gets, how output lines are classified and routed,
//! how runs are registered, promoted and torn down, and how cancellation escalates.
//! Around that core stands what a host of such sessions needs besides: choosing among
//! the installations of a driver, keeping the project list, switching the API provider,
//! and summing up what a session used.
//!
//! The crate holds no process handles and performs no I/O. Callers feed it the events
//! they observe and carry out the actions it returns.

pub mod cancel;
pub mod choice;
pub mod discovery;
pub mod env;
pub mod envelope;
pub mod event;
pub mod feeder;
pub mod installation;
pub mod json;
pub mod launch;
pub mod modes;
pub mod permissions;
pub mod probe;
pub mod project_store;
pub mod provider;
pub mod registry;
pub mod router;
pub mod run;
pub mod session;
pub mod slot;
pub mod text;
pub mod usage;
pub mod version;
