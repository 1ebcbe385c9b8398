//! Verified core of a tool that keeps a registry of local conductor setups,
//! launches conductors against them and talks to their admin interface.
//!
//! Everything here is free of I/O: the functions decide what is to be done
//! and the embedding program performs it and reports back what happened.

pub mod bytes;
pub mod clock;
pub mod dispatch;
pub mod error;
pub mod index_list;
pub mod launch;
pub mod manifest;
pub mod message;
pub mod registry;
pub mod runner;
