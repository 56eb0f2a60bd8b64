//! Core domain logic for LazyNote: the workspace tree, the note and atom
//! use-cases, search queries, the extension kernel and the provider
//! registry, with the rules that the outer layers share.

use vstd::prelude::*;

pub mod api;
pub mod db;
pub mod extension;
pub mod logging;
pub mod model;
mod outside;
pub mod repo;
pub mod search;
pub mod service;
pub mod sync;
pub mod text;

/// Re-export runtime capability declarations.
pub use extension::capability::{
    parse_runtime_capability, supported_runtime_capability_strings, RuntimeCapability,
    RuntimeCapabilityError,
};
/// Re-export extension registry contracts.
pub use extension::kernel::{
    ExtensionAdapter, ExtensionHealth, ExtensionInvocation, ExtensionKernelError,
    ExtensionRegistry, ExtensionSource, FirstPartyExtensionAdapter, RegisteredExtension,
};
/// Re-export extension manifest declarations.
pub use extension::manifest::{
    supported_capabilities, ExtensionManifest, ManifestEntrypoints, ManifestValidationError,
};
/// Re-export canonical Atom model types.
pub use model::atom::{Atom, AtomId, AtomType, AtomValidationError, TaskStatus};
/// Re-export atom repository contracts.
pub use repo::atom_repo::{AtomListQuery, AtomRepository, RepoError, RepoResult};
/// Re-export notes/tags repository models and contracts.
pub use repo::note_repo::{
    normalize_note_limit, normalize_tag, normalize_tags, NoteListQuery, NoteRecord, NoteRepository,
};
/// Re-export search query/result models.
pub use search::fts::{SearchError, SearchHit, SearchQuery, SearchResult};
/// Re-export atom service facade.
pub use service::atom_service::{AtomService, ScheduleEventRequest};
/// Re-export notes service facade and models.
pub use service::note_service::{
    derive_markdown_preview, MarkdownPreview, NoteService, NoteServiceError, NotesListResult,
};
/// Re-export the provider registry and what a provider offers.
pub use sync::provider_registry::{ProviderRegistry, ProviderRegistryError};
pub use sync::provider_spi::ProviderSpi;
/// Re-export the in-memory tree tables.
pub use repo::memory_tree::MemoryTreeRepository;
/// Re-export repository contracts.
pub use repo::tree_repo::{
    TreeRepoError, TreeRepoResult, TreeRepository, WorkspaceNode, WorkspaceNodeId,
};
/// Re-export the node kinds.
pub use repo::tree_state::WorkspaceNodeKind;
/// Re-export tree service facade.
pub use service::tree_service::{FolderDeleteMode, TreeService, TreeServiceError};

verus! {

/// The answer of the health check.
pub open spec fn pong() -> Seq<char> {
    seq!['p', 'o', 'n', 'g']
}

/// Minimal health-check API for early integration.
pub fn ping() -> (r: &'static str)
    ensures
        r@ == pong(),
{
    proof {
        reveal_strlit("pong");
    }
    assert("pong"@ =~= pong());
    "pong"
}

/// The version of this crate, `major.minor.patch`.
pub open spec fn version_text() -> Seq<char> {
    seq!['0', '.', '1', '.', '0']
}

/// Returns the core crate version.
pub fn core_version() -> (r: &'static str)
    ensures
        r@ == version_text(),
        r@.len() > 0,
{
    proof {
        reveal_strlit("0.1.0");
    }
    assert("0.1.0"@ =~= version_text());
    "0.1.0"
}

} // verus!
