//! Extension kernel contracts.
//!
//! This module defines declaration-time contracts for extension manifests and
//! in-process registry wiring.

pub mod baseline;
pub mod capability;
pub mod kernel;
pub mod manifest;
