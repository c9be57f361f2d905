//! Verified core of an SSH agent multiplexer: the bookkeeping that maps
//! public keys to the upstream agents offering them, the decisions taken for
//! each agent request, and the configuration and service-management rules.

pub mod text;
pub mod known_keys;
pub mod mux;
pub mod laws;
pub mod service;
pub mod cli;
pub mod logging;
