//! Setting up CAN interfaces: the configurations, the commands that realise
//! them, prerequisites, and the decisions around interfaces that already
//! exist.
pub mod exec;
pub mod models;
pub mod plan;
pub mod prereqs;
pub mod prompt;
