//! Converges a host toward a declared state: packages, files, links,
//! ownership and permission bits.
//!
//! The crate holds the planning engine. Configuration files declare what
//! is wanted ([`pet_files`]); the host tells what it found, as plain
//! values; the planner ([`planner`]) decides which actions bring the one
//! to the other, and in which order; and each action ([`actions`]) says
//! what is to be started and classifies how that went. Nothing here
//! starts a process or changes the host: the program around the crate
//! does that and hands the outcomes in.

pub mod actions;
pub mod package_manager;
pub mod pet_files;
pub mod planner;
pub mod text;
