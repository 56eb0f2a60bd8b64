//! Sync providers: what a provider offers, and the registry that holds the
//! providers and the one that is selected.

pub mod provider_registry;
pub mod provider_spi;
pub mod provider_types;
