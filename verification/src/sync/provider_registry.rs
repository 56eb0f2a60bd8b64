//! In-process provider registry and selection hooks.

use vstd::prelude::*;
use crate::outside::same_text;
use crate::sync::provider_spi::ProviderSpi;
use crate::sync::provider_types::EnvelopeView;
use crate::sync::provider_types::ProviderErrorEnvelope;
use crate::sync::provider_types::ProviderResult;
use crate::sync::provider_types::SyncStage;
use crate::text::ascending;
use crate::text::chars_of;
use crate::text::join2;
use crate::text::lemma_lex_irreflexive;
use crate::text::lemma_lex_total;
use crate::text::lemma_lex_transitive;
use crate::text::lex_lt;
use crate::text::optional_text;
use crate::text::text_less;
use crate::text::texts;
use crate::text::text_of;
use crate::text::trim;
use crate::text::trimmed;

verus! {

/// Provider registration/selection errors.
#[derive(Debug, Clone, PartialEq, Eq)]
pub enum ProviderRegistryError {
    InvalidProviderId(String),
    DuplicateProviderId(String),
    ProviderNotFound(String),
}

/// A registry error with its id as characters.
pub enum ProviderIssue {
    InvalidProviderId(Seq<char>),
    DuplicateProviderId(Seq<char>),
    ProviderNotFound(Seq<char>),
}

impl View for ProviderRegistryError {
    type V = ProviderIssue;

    open spec fn view(&self) -> ProviderIssue {
        match self {
            ProviderRegistryError::InvalidProviderId(v) => ProviderIssue::InvalidProviderId(v@),
            ProviderRegistryError::DuplicateProviderId(v) => ProviderIssue::DuplicateProviderId(v@),
            ProviderRegistryError::ProviderNotFound(v) => ProviderIssue::ProviderNotFound(v@),
        }
    }
}

/// What a registry error says.
pub open spec fn provider_error_text(e: ProviderIssue) -> Seq<char> {
    match e {
        ProviderIssue::InvalidProviderId(v) => "provider id is invalid: "@ + v,
        ProviderIssue::DuplicateProviderId(v) => "provider id already registered: "@ + v,
        ProviderIssue::ProviderNotFound(v) => "provider not found: "@ + v,
    }
}

impl ProviderRegistryError {
    /// The message of this error.
    pub fn message(&self) -> (r: String)
        ensures
            r@ == provider_error_text(self@),
    {
        match self {
            ProviderRegistryError::InvalidProviderId(v) => join2("provider id is invalid: ", v.as_str()),
            ProviderRegistryError::DuplicateProviderId(v) => join2(
                "provider id already registered: ",
                v.as_str(),
            ),
            ProviderRegistryError::ProviderNotFound(v) => join2("provider not found: ", v.as_str()),
        }
    }
}

/// A character of a provider id: a lower-case ASCII letter, an ASCII
/// digit, `_` or `-`.
pub open spec fn provider_id_char(c: char) -> bool {
    ('a' <= c && c <= 'z') || ('0' <= c && c <= '9') || c == '_' || c == '-'
}

/// A provider id is not empty and made of such characters only.
pub open spec fn valid_provider_id(value: Seq<char>) -> bool {
    value.len() > 0 && forall|i: int| 0 <= i < value.len() ==> provider_id_char(#[trigger] value[i])
}

/// Whether `value` is a well-formed provider id.
pub fn is_valid_provider_id(value: &str) -> (r: bool)
    ensures
        r == valid_provider_id(value@),
{
    let chars = chars_of(value);
    if chars.len() == 0 {
        return false;
    }
    let mut i: usize = 0;
    while i < chars.len()
        invariant
            i <= chars.len(),
            chars@ == value@,
            forall|j: int| 0 <= j < i ==> provider_id_char(#[trigger] chars@[j]),
        decreases chars.len() - i,
    {
        let c = chars[i];
        let fine = ('a' <= c && c <= 'z') || ('0' <= c && c <= '9') || c == '_' || c == '-';
        if !fine {
            assert(!provider_id_char(chars@[i as int]));
            return false;
        }
        i += 1;
    }
    true
}

/// One registered provider, under its id.
struct Registered<P> {
    id: String,
    provider: P,
}

/// Runtime provider registry.
pub struct ProviderRegistry<P: ProviderSpi> {
    providers: Vec<Registered<P>>,
    active_provider_id: Option<String>,
}

/// What a registry holds: the ids in their order, the provider under each,
/// and the id that is selected.
pub struct RegistryView<P> {
    pub ids: Seq<Seq<char>>,
    pub providers: Seq<P>,
    pub active: Option<Seq<char>>,
}

impl<P: ProviderSpi> View for ProviderRegistry<P> {
    type V = RegistryView<P>;

    closed spec fn view(&self) -> RegistryView<P> {
        RegistryView {
            ids: self.providers@.map_values(|e: Registered<P>| e.id@),
            providers: self.providers@.map_values(|e: Registered<P>| e.provider),
            active: optional_text(self.active_provider_id),
        }
    }
}

/// Why a provider that asks for the id `raw` cannot be registered, if it
/// cannot: the id, trimmed, is no provider id, or it is taken.
pub open spec fn registration_issue(ids: Seq<Seq<char>>, raw: Seq<char>) -> Option<ProviderIssue> {
    if !valid_provider_id(trimmed(raw)) {
        Some(ProviderIssue::InvalidProviderId(trimmed(raw)))
    } else if ids.contains(trimmed(raw)) {
        Some(ProviderIssue::DuplicateProviderId(trimmed(raw)))
    } else {
        None
    }
}

/// The envelope that answers a call where no provider is selected.
pub open spec fn not_selected(stage: SyncStage) -> EnvelopeView {
    EnvelopeView {
        provider_id: "registry"@,
        stage,
        code: "provider_not_selected"@,
        message: "No active provider selected."@,
        retryable: false,
    }
}

impl<P: ProviderSpi> Default for ProviderRegistry<P> {
    fn default() -> (r: Self)
        ensures
            r@.ids == Seq::<Seq<char>>::empty(),
            r@.providers == Seq::<P>::empty(),
            r@.active is None,
            r.well_formed(),
    {
        ProviderRegistry::new()
    }
}

impl<P: ProviderSpi> ProviderRegistry<P> {
    /// The ids stand in their order, each with its provider, and the id
    /// that is selected is registered.
    pub open spec fn well_formed(&self) -> bool {
        &&& ascending(self@.ids)
        &&& self@.providers.len() == self@.ids.len()
        &&& self@.active is Some ==> self@.ids.contains(self@.active->0)
    }

    /// The provider registered under `id`; meaningful where there is one.
    pub open spec fn provider_of(&self, id: Seq<char>) -> P {
        self@.providers[self@.ids.index_of(id)]
    }

    /// An empty registry with no provider selected.
    pub fn new() -> (r: Self)
        ensures
            r@.ids == Seq::<Seq<char>>::empty(),
            r@.providers == Seq::<P>::empty(),
            r@.active is None,
            r.well_formed(),
    {
        let r = ProviderRegistry { providers: Vec::new(), active_provider_id: None };
        assert(r@.ids =~= Seq::<Seq<char>>::empty());
        assert(r@.providers =~= Seq::<P>::empty());
        r
    }

    fn find(&self, id: &str) -> (r: Option<usize>)
        requires
            self.well_formed(),
        ensures
            match r {
                Some(i) => i < self.providers.len() && self@.ids[i as int] == id@ && self@.ids.contains(id@)
                    && self@.ids.index_of(id@) == i,
                None => !self@.ids.contains(id@),
            },
    {
        let mut i: usize = 0;
        while i < self.providers.len()
            invariant
                i <= self.providers.len(),
                self.well_formed(),
                forall|j: int| 0 <= j < i ==> #[trigger] self@.ids[j] != id@,
            decreases self.providers.len() - i,
        {
            if same_text(self.providers[i].id.as_str(), id) {
                proof {
                    assert(self@.ids[i as int] == id@);
                    let k = self@.ids.index_of(id@);
                    if k != i {
                        lemma_lex_irreflexive(id@);
                        if k < i {
                            assert(lex_lt(self@.ids[k], self@.ids[i as int]));
                        } else {
                            assert(lex_lt(self@.ids[i as int], self@.ids[k]));
                        }
                    }
                }
                return Some(i);
            }
            i += 1;
        }
        None
    }

    /// Registers `provider` under the id `provider_id`, trimmed. The id
    /// must be a provider id that is not taken; the provider takes its
    /// place in the order of ids.
    pub fn register_as(&mut self, provider_id: &str, provider: P) -> (r: Result<(), ProviderRegistryError>)
        requires
            old(self).well_formed(),
        ensures
            final(self).well_formed(),
            final(self)@.active == old(self)@.active,
            match r {
                Ok(()) => registration_issue(old(self)@.ids, provider_id@) is None && exists|at: int|
                    0 <= at <= old(self)@.ids.len() && final(self)@.ids == #[trigger] old(self)@.ids.insert(
                        at,
                        trimmed(provider_id@),
                    ) && final(self)@.providers == old(self)@.providers.insert(at, provider),
                Err(e) => registration_issue(old(self)@.ids, provider_id@) == Some(e@) && final(self)@
                    == old(self)@,
            },
    {
        let id = trim(provider_id).to_owned();
        if !is_valid_provider_id(id.as_str()) {
            return Err(ProviderRegistryError::InvalidProviderId(id));
        }
        if self.find(id.as_str()).is_some() {
            return Err(ProviderRegistryError::DuplicateProviderId(id));
        }
        let mut at: usize = 0;
        while at < self.providers.len() && text_less(self.providers[at].id.as_str(), id.as_str())
            invariant
                at <= self.providers.len(),
                forall|k: int| 0 <= k < at ==> lex_lt(#[trigger] self@.ids[k], id@),
            decreases self.providers.len() - at,
        {
            at += 1;
        }
        let ghost before = self@;
        let ghost new_id = id@;
        proof {
            if at < before.ids.len() {
                assert(before.ids.contains(before.ids[at as int]));
                lemma_lex_total(before.ids[at as int], new_id);
                assert forall|k: int| at <= k < before.ids.len() implies lex_lt(
                    new_id,
                    #[trigger] before.ids[k],
                ) by {
                    if k > at {
                        lemma_lex_transitive(new_id, before.ids[at as int], before.ids[k]);
                    }
                }
            }
        }
        self.providers.insert(at, Registered { id, provider });
        proof {
            assert(self@.ids =~= before.ids.insert(at as int, new_id));
            assert(self@.providers =~= before.providers.insert(at as int, provider));
            assert forall|i: int, j: int| 0 <= i < j < self@.ids.len() implies lex_lt(
                #[trigger] self@.ids[i],
                #[trigger] self@.ids[j],
            ) by {
                let a = if i < at { i } else { i - 1 };
                let b = if j < at { j } else { j - 1 };
                if i != at {
                    assert(self@.ids[i] == before.ids[a]);
                }
                if j != at {
                    assert(self@.ids[j] == before.ids[b]);
                }
                if i != at && j != at {
                    assert(lex_lt(before.ids[a], before.ids[b]));
                }
            }
            if before.active is Some {
                let k = before.ids.index_of(before.active->0);
                assert(before.ids[k] == before.active->0);
                if k < at {
                    assert(self@.ids[k] == before.active->0);
                } else {
                    assert(self@.ids[k + 1] == before.active->0);
                }
            }
        }
        Ok(())
    }

    /// Registers one provider under the id that it asks for. Whatever id
    /// that is, the registration goes as `register_as` says of it.
    pub fn register(&mut self, provider: P) -> (r: Result<(), ProviderRegistryError>)
        requires
            old(self).well_formed(),
        ensures
            final(self).well_formed(),
            final(self)@.active == old(self)@.active,
            match r {
                Ok(()) => exists|at: int|
                    0 <= at <= old(self)@.ids.len() && final(self)@.providers
                        == #[trigger] old(self)@.providers.insert(at, provider) && final(self)@.ids.len()
                        == old(self)@.ids.len() + 1 && valid_provider_id(final(self)@.ids[at]),
                Err(e) => final(self)@ == old(self)@ && !(e@ is ProviderNotFound),
            },
    {
        let id = provider.provider_id().to_owned();
        self.register_as(id.as_str(), provider)
    }

    pub fn len(&self) -> (r: usize)
        ensures
            r == self@.ids.len(),
    {
        self.providers.len()
    }

    pub fn is_empty(&self) -> (r: bool)
        ensures
            r == (self@.ids.len() == 0),
    {
        self.providers.len() == 0
    }

    /// Returns sorted provider ids.
    pub fn provider_ids(&self) -> (r: Vec<String>)
        ensures
            texts(r@) == self@.ids,
    {
        let mut out: Vec<String> = Vec::new();
        let mut i: usize = 0;
        while i < self.providers.len()
            invariant
                i <= self.providers.len(),
                out.len() == i,
                forall|j: int| 0 <= j < i ==> (#[trigger] out[j])@ == self@.ids[j],
            decreases self.providers.len() - i,
        {
            out.push(self.providers[i].id.clone());
            i += 1;
        }
        assert(texts(out@) =~= self@.ids);
        out
    }

    /// Selects one active provider, by its id trimmed.
    pub fn select_active(&mut self, provider_id: &str) -> (r: Result<(), ProviderRegistryError>)
        requires
            old(self).well_formed(),
        ensures
            final(self).well_formed(),
            final(self)@.ids == old(self)@.ids,
            final(self)@.providers == old(self)@.providers,
            match r {
                Ok(()) => old(self)@.ids.contains(trimmed(provider_id@)) && final(self)@.active == Some(
                    trimmed(provider_id@),
                ),
                Err(e) => !old(self)@.ids.contains(trimmed(provider_id@)) && e@
                    == ProviderIssue::ProviderNotFound(trimmed(provider_id@)) && final(self)@.active
                    == old(self)@.active,
            },
    {
        let normalized = trim(provider_id);
        if self.find(normalized).is_none() {
            return Err(ProviderRegistryError::ProviderNotFound(normalized.to_owned()));
        }
        self.active_provider_id = Some(normalized.to_owned());
        Ok(())
    }

    /// Clears active provider selection.
    pub fn clear_active(&mut self)
        requires
            old(self).well_formed(),
        ensures
            final(self).well_formed(),
            final(self)@.ids == old(self)@.ids,
            final(self)@.providers == old(self)@.providers,
            final(self)@.active is None,
    {
        self.active_provider_id = None;
    }

    /// Returns active provider id.
    pub fn active_provider_id(&self) -> (r: Option<&str>)
        ensures
            text_of(r) == self@.active,
    {
        match &self.active_provider_id {
            Some(id) => Some(id.as_str()),
            None => None,
        }
    }

    /// Returns one provider by id, trimmed.
    pub fn get(&self, provider_id: &str) -> (r: Option<&P>)
        requires
            self.well_formed(),
        ensures
            match r {
                Some(provider) => self@.ids.contains(trimmed(provider_id@)) && *provider
                    == self.provider_of(trimmed(provider_id@)),
                None => !self@.ids.contains(trimmed(provider_id@)),
            },
    {
        match self.find(trim(provider_id)) {
            Some(i) => Some(&self.providers[i].provider),
            None => None,
        }
    }

    /// Returns the provider that is selected.
    pub fn active_provider(&self) -> (r: Option<&P>)
        requires
            self.well_formed(),
        ensures
            match r {
                Some(provider) => self@.active is Some && *provider == self.provider_of(self@.active->0),
                None => self@.active is None,
            },
    {
        match &self.active_provider_id {
            Some(id) => match self.find(id.as_str()) {
                Some(i) => Some(&self.providers[i].provider),
                None => None,
            },
            None => None,
        }
    }

    /// Returns status for one provider, by its id trimmed: there is one
    /// where the id is registered, and it is what that provider reports.
    pub fn provider_status(&self, provider_id: &str) -> (r: Option<P::Status>)
        requires
            self.well_formed(),
        ensures
            r is Some <==> self@.ids.contains(trimmed(provider_id@)),
    {
        match self.get(provider_id) {
            Some(provider) => Some(provider.status()),
            None => None,
        }
    }

    /// Returns status for current active provider.
    pub fn active_status(&self) -> (r: Option<P::Status>)
        requires
            self.well_formed(),
        ensures
            r is Some <==> self@.active is Some,
    {
        match self.active_provider() {
            Some(provider) => Some(provider.status()),
            None => None,
        }
    }

    /// Executes auth against selected provider. With none selected the
    /// answer is the registry's own; else it is what the provider gave.
    pub fn auth_active(&self, request: P::AuthRequest) -> (r: ProviderResult<P::AuthResult>)
        requires
            self.well_formed(),
        ensures
            self@.active is None ==> r is Err && r->Err_0@ == not_selected(SyncStage::Auth),
    {
        match self.require_active(SyncStage::Auth) {
            Ok(provider) => provider.auth(request),
            Err(e) => Err(e),
        }
    }

    /// Executes pull against selected provider.
    pub fn pull_active(&self, request: P::PullRequest) -> (r: ProviderResult<P::PullResult>)
        requires
            self.well_formed(),
        ensures
            self@.active is None ==> r is Err && r->Err_0@ == not_selected(SyncStage::Pull),
    {
        match self.require_active(SyncStage::Pull) {
            Ok(provider) => provider.pull(request),
            Err(e) => Err(e),
        }
    }

    /// Executes push against selected provider.
    pub fn push_active(&self, request: P::PushRequest) -> (r: ProviderResult<P::PushResult>)
        requires
            self.well_formed(),
        ensures
            self@.active is None ==> r is Err && r->Err_0@ == not_selected(SyncStage::Push),
    {
        match self.require_active(SyncStage::Push) {
            Ok(provider) => provider.push(request),
            Err(e) => Err(e),
        }
    }

    /// Executes conflict-map against selected provider.
    pub fn conflict_map_active(&self, request: P::ConflictMapRequest) -> (r: ProviderResult<
        P::ConflictMapResult,
    >)
        requires
            self.well_formed(),
        ensures
            self@.active is None ==> r is Err && r->Err_0@ == not_selected(SyncStage::ConflictMap),
    {
        match self.require_active(SyncStage::ConflictMap) {
            Ok(provider) => provider.conflict_map(request),
            Err(e) => Err(e),
        }
    }

    fn require_active(&self, stage: SyncStage) -> (r: ProviderResult<&P>)
        requires
            self.well_formed(),
        ensures
            match r {
                Ok(provider) => self@.active is Some && *provider == self.provider_of(self@.active->0),
                Err(e) => self@.active is None && e@ == not_selected(stage),
            },
    {
        match self.active_provider() {
            Some(provider) => Ok(provider),
            None => Err(
                ProviderErrorEnvelope::new(
                    "registry",
                    stage,
                    "provider_not_selected",
                    "No active provider selected.",
                    false,
                ),
            ),
        }
    }
}

} // verus!
