//! Verified core of a flake pilot: launcher logic that runs registered
//! applications inside a container engine or a microVM.
//!
//! The library computes every decision and every prepared command of the
//! pilots as plain values with contracts; the thin unverified frontend
//! executes the prepared commands and feeds observed results back in.
pub mod command;
pub mod container;
pub mod ctl;
pub mod defaults;
pub mod yamlmerge;
pub mod error;
pub mod firecracker;
pub mod firecracker_config;
pub mod io;
pub mod lifecycle;
pub mod lookup;
pub mod podman;
pub mod podman_config;
pub mod protocol;
pub mod provision;
pub mod registry;
pub mod sci;
pub mod yamlval;
pub mod text;
pub mod user;
