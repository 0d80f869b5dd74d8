//! Planned operations: why they exist, what they run, and how their
//! outcome is classified.

mod action;
mod cause;
mod errors;
mod outcome;
mod package;
pub mod package_manager;

pub use action::{
    exit_status, halt_status, halts, status_from, Action, ActionView, Invocation, Step,
};
pub use cause::Cause;
pub use errors::ActionError;
pub use outcome::Outcome;
pub use package::{cargo_header, cargo_names, field_from, field_of, parse_cargo_installed, Package};
