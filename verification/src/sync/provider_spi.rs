//! What a sync provider offers to the registry.

use vstd::prelude::*;
use crate::sync::provider_types::ProviderResult;

verus! {

/// A sync provider. The registry reads its id when it is registered and
/// hands the calls of a sync on to the provider that is selected; what a
/// provider takes and gives in those calls is the provider's own.
pub trait ProviderSpi {
    /// What the provider reports of itself.
    type Status;

    type AuthRequest;

    type AuthResult;

    type PullRequest;

    type PullResult;

    type PushRequest;

    type PushResult;

    type ConflictMapRequest;

    type ConflictMapResult;

    /// The id under which the provider asks to be registered.
    fn provider_id(&self) -> &str;

    fn status(&self) -> Self::Status;

    fn auth(&self, request: Self::AuthRequest) -> ProviderResult<Self::AuthResult>;

    fn pull(&self, request: Self::PullRequest) -> ProviderResult<Self::PullResult>;

    fn push(&self, request: Self::PushRequest) -> ProviderResult<Self::PushResult>;

    fn conflict_map(&self, request: Self::ConflictMapRequest) -> ProviderResult<
        Self::ConflictMapResult,
    >;
}

} // verus!
