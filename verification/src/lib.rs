//! Verified core of a declarative pod/container deployment tool.
//!
//! A configuration document describes pods, their containers, images,
//! mounts and ports. The library computes everything the tool decides:
//! which containers need an upgrade, which runtime commands to issue and in
//! what order, which host paths to materialize for mounts, and how each
//! mode (setup, upgrade, start, stop) plans its work. Observed runtime
//! state is handed in as plain values, and the planned commands are carried
//! out by an unverified driver around the library.

pub mod cli;
pub mod commands;
pub mod config;
pub mod errors;
pub mod mounts;
pub mod paths;
pub mod platform;
pub mod reconcile;
pub mod text;
