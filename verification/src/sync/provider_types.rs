//! What goes between the registry and a provider whatever the provider is.

use vstd::prelude::*;

verus! {

/// The stage of a sync at which something failed.
#[derive(Debug, Clone, Copy, PartialEq, Eq, Structural)]
pub enum SyncStage {
    Auth,
    Pull,
    Push,
    ConflictMap,
}

/// A failure of a sync call, as every provider reports it.
#[derive(Debug, Clone, PartialEq, Eq)]
pub struct ProviderErrorEnvelope {
    /// The provider that failed, or `registry` for the registry itself.
    pub provider_id: String,
    /// The stage at which the call failed.
    pub stage: SyncStage,
    /// Stable machine-readable error code.
    pub code: String,
    /// Human-readable message.
    pub message: String,
    /// Whether the call may be tried again.
    pub retryable: bool,
}

/// Result type of sync calls.
pub type ProviderResult<T> = Result<T, ProviderErrorEnvelope>;

/// An envelope as characters.
pub struct EnvelopeView {
    pub provider_id: Seq<char>,
    pub stage: SyncStage,
    pub code: Seq<char>,
    pub message: Seq<char>,
    pub retryable: bool,
}

impl View for ProviderErrorEnvelope {
    type V = EnvelopeView;

    open spec fn view(&self) -> EnvelopeView {
        EnvelopeView {
            provider_id: self.provider_id@,
            stage: self.stage,
            code: self.code@,
            message: self.message@,
            retryable: self.retryable,
        }
    }
}

impl ProviderErrorEnvelope {
    /// An envelope of the given parts.
    pub fn new(provider_id: &str, stage: SyncStage, code: &str, message: &str, retryable: bool) -> (r:
        Self)
        ensures
            r@ == (EnvelopeView {
                provider_id: provider_id@,
                stage,
                code: code@,
                message: message@,
                retryable,
            }),
    {
        ProviderErrorEnvelope {
            provider_id: provider_id.to_owned(),
            stage,
            code: code.to_owned(),
            message: message.to_owned(),
            retryable,
        }
    }
}

} // verus!
