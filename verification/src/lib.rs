//! A declarative package-manager wrapper: manifests written as small lua
//! scripts declare packages, and the reconciler drives each native package
//! manager (apt, snap, brew, winget) to converge the host on the declared
//! set. This crate holds the verified core — manifest validation, content
//! identity, the installed-state store with its exact round trip, and the
//! install/purge/update decisions; the binary around it does the walking,
//! reading, writing and process spawning.

pub mod cli;
pub mod config;
pub mod hashing;
pub mod installer;
pub mod manifest;
pub mod package;
pub mod reconcile;
pub mod script;
pub mod state;
