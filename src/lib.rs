//! Mirrors chat messages between chat platforms along statically configured
//! channel links.
pub mod channel;
pub mod config;
pub mod filter;
pub mod router;
pub mod mirror;
pub mod harness;
pub mod text;
pub mod factorio;
pub mod twitch;
