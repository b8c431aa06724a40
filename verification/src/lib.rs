//! Runs Cargo so that it sidesteps lock contention: the decisions.
//!
//! Cargo is run on directories that all runs in a workspace share. If its error
//! output reports a lock that it waits for, the run is given up after a while and
//! the command is run again in a lane, a set of directories that nobody else uses.
//!
//! This crate decides and computes; it neither starts processes nor touches files.
//! It takes what was read as plain values and hands back what is to be done.
//!
//! - [`cli`]: what a command line asks for.
//! - [`settings`]: what the environment settles.
//! - [`workspace`]: which workspace a command works on, and where its state lies.
//! - [`version`]: what the version of Cargo allows.
//! - [`lane`], [`claim`]: lanes, the leases on them, and how a lane is taken.
//! - [`overlay`], [`disk`]: stand-ins for Cargo's home, and what preparing them does.
//! - [`plan`]: with which directories and variables Cargo is run.
//! - [`watch`]: when a run is given up.
//! - [`reroute`]: what follows a run.
//! - [`isolation`]: what keeps runs out of each other's way.
//! - [`report`]: what the program ends with.
//! - [`lock`], [`hash`], [`path`], [`place`], [`number`], [`text`]: what the others are
//!   made of.

pub mod claim;
pub mod cli;
pub mod disk;
pub mod hash;
pub mod isolation;
pub mod lane;
pub mod lock;
pub mod number;
pub mod overlay;
pub mod path;
pub mod place;
pub mod plan;
pub mod report;
pub mod reroute;
pub mod settings;
pub mod text;
pub mod version;
pub mod watch;
pub mod workspace;
