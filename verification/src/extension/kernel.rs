//! Extension kernel registry contracts.

use vstd::prelude::*;
use crate::extension::capability::capability_text;
use crate::extension::manifest::manifest_error_text;
use crate::text::join2;
use crate::text::join3;
use crate::extension::capability::RuntimeCapability;
use crate::extension::manifest::EntrypointsView;
use crate::extension::manifest::ExtensionManifest;
use crate::extension::manifest::ManifestEntrypoints;
use crate::extension::manifest::ManifestIssue;
use crate::extension::manifest::ManifestValidationError;
use crate::extension::manifest::ManifestView;
use crate::extension::baseline::lemma_baseline_manifest_valid;
use crate::extension::manifest::declared;
use crate::extension::manifest::manifest_issue;
use crate::text::has_text;
use crate::text::texts;
use crate::outside::same_text;
use crate::text::lemma_lex_irreflexive;
use crate::text::lemma_lex_total;
use crate::text::lemma_lex_transitive;
use crate::text::lex_lt;
use crate::text::text_less;

verus! {

/// Extension lifecycle status contract.
#[derive(Debug, Clone, Copy, PartialEq, Eq, Structural)]
pub enum ExtensionHealth {
    Healthy,
    Degraded,
    Unavailable,
}

/// Extension invocation kinds that require runtime capability checks.
#[derive(Debug, Clone, Copy, PartialEq, Eq, Structural)]
pub enum ExtensionInvocation {
    NetworkRequest,
    FileAccess,
    NotificationDispatch,
    CalendarAccess,
    ProviderSync,
}

/// The runtime capabilities that an invocation needs, in the order in
/// which they are checked.
pub open spec fn required(invocation: ExtensionInvocation) -> Seq<RuntimeCapability> {
    match invocation {
        ExtensionInvocation::NetworkRequest => seq![RuntimeCapability::Network],
        ExtensionInvocation::FileAccess => seq![RuntimeCapability::File],
        ExtensionInvocation::NotificationDispatch => seq![RuntimeCapability::Notification],
        ExtensionInvocation::CalendarAccess => seq![RuntimeCapability::Calendar],
        ExtensionInvocation::ProviderSync => seq![RuntimeCapability::Network, RuntimeCapability::Calendar],
    }
}

impl ExtensionInvocation {
    /// The runtime capabilities that this invocation needs.
    pub fn required_capabilities(self) -> (r: Vec<RuntimeCapability>)
        ensures
            r@ == required(self),
    {
        let mut r: Vec<RuntimeCapability> = Vec::new();
        match self {
            ExtensionInvocation::NetworkRequest => {
                r.push(RuntimeCapability::Network);
            },
            ExtensionInvocation::FileAccess => {
                r.push(RuntimeCapability::File);
            },
            ExtensionInvocation::NotificationDispatch => {
                r.push(RuntimeCapability::Notification);
            },
            ExtensionInvocation::CalendarAccess => {
                r.push(RuntimeCapability::Calendar);
            },
            ExtensionInvocation::ProviderSync => {
                r.push(RuntimeCapability::Network);
                r.push(RuntimeCapability::Calendar);
            },
        }
        assert(r@ =~= required(self));
        r
    }
}

/// Internal source classification for one extension registration.
#[derive(Debug, Clone, Copy, PartialEq, Eq, Structural)]
pub enum ExtensionSource {
    FirstParty,
}

/// Registered extension snapshot in kernel registry.
#[derive(Debug, Clone, PartialEq, Eq)]
pub struct RegisteredExtension {
    pub manifest: ExtensionManifest,
    /// The declared runtime capabilities, each once, in the order network,
    /// file, notification, calendar.
    pub runtime_capabilities: Vec<RuntimeCapability>,
    pub source: ExtensionSource,
}

/// A registered extension as characters.
pub struct RegisteredView {
    pub manifest: ManifestView,
    pub runtime_capabilities: Seq<RuntimeCapability>,
    pub source: ExtensionSource,
}

impl View for RegisteredExtension {
    type V = RegisteredView;

    open spec fn view(&self) -> RegisteredView {
        RegisteredView {
            manifest: self.manifest@,
            runtime_capabilities: self.runtime_capabilities@,
            source: self.source,
        }
    }
}

/// Adapter contract used by first-party modules to register via kernel.
pub trait ExtensionAdapter {
    /// The manifest that this adapter declares.
    spec fn declared_manifest(&self) -> ManifestView;

    /// Where this adapter comes from.
    spec fn declared_source(&self) -> ExtensionSource;

    fn manifest(&self) -> (r: &ExtensionManifest)
        ensures
            r@ == self.declared_manifest(),
    ;

    fn source(&self) -> (r: ExtensionSource)
        ensures
            r == self.declared_source(),
    ;
}

/// First-party adapter wrapper.
#[derive(Debug, Clone, PartialEq, Eq)]
pub struct FirstPartyExtensionAdapter {
    manifest: ExtensionManifest,
}

/// The manifest of the built-in notes shell.
pub open spec fn baseline_manifest() -> ManifestView {
    ManifestView {
        id: "builtin.notes.shell"@,
        version: "0.1.0"@,
        capabilities: seq!["command"@, "parser"@, "provider"@, "ui_slot"@],
        runtime_capabilities: Seq::empty(),
        entrypoints: EntrypointsView {
            init: Some("builtin.notes.init"@),
            dispose: Some("builtin.notes.dispose"@),
            health: Some("builtin.notes.health"@),
            command_action: Some("builtin.notes.command.register"@),
            input_parser: Some("builtin.notes.parser.register"@),
            provider_spi: Some("builtin.notes.provider.register"@),
            ui_slot: Some("builtin.notes.ui_slot.register"@),
        },
    }
}

impl FirstPartyExtensionAdapter {
    /// The manifest that the adapter wraps.
    pub closed spec fn wrapped(&self) -> ManifestView {
        self.manifest@
    }

    pub fn new(manifest: ExtensionManifest) -> (r: Self)
        ensures
            r.wrapped() == manifest@,
    {
        FirstPartyExtensionAdapter { manifest }
    }

    /// Built-in baseline adapter used to verify registry path.
    pub fn notes_shell_baseline() -> (r: Self)
        ensures
            r.wrapped() == baseline_manifest(),
    {
        let mut capabilities: Vec<String> = Vec::new();
        capabilities.push("command".to_owned());
        capabilities.push("parser".to_owned());
        capabilities.push("provider".to_owned());
        capabilities.push("ui_slot".to_owned());
        let manifest = ExtensionManifest {
            id: "builtin.notes.shell".to_owned(),
            version: "0.1.0".to_owned(),
            capabilities,
            runtime_capabilities: Vec::new(),
            entrypoints: ManifestEntrypoints {
                init: Some("builtin.notes.init".to_owned()),
                dispose: Some("builtin.notes.dispose".to_owned()),
                health: Some("builtin.notes.health".to_owned()),
                command_action: Some("builtin.notes.command.register".to_owned()),
                input_parser: Some("builtin.notes.parser.register".to_owned()),
                provider_spi: Some("builtin.notes.provider.register".to_owned()),
                ui_slot: Some("builtin.notes.ui_slot.register".to_owned()),
            },
        };
        assert(manifest@.capabilities =~= baseline_manifest().capabilities);
        assert(manifest@.runtime_capabilities =~= baseline_manifest().runtime_capabilities);
        FirstPartyExtensionAdapter::new(manifest)
    }
}

impl ExtensionAdapter for FirstPartyExtensionAdapter {
    open spec fn declared_manifest(&self) -> ManifestView {
        self.wrapped()
    }

    open spec fn declared_source(&self) -> ExtensionSource {
        ExtensionSource::FirstParty
    }

    fn manifest(&self) -> (r: &ExtensionManifest) {
        &self.manifest
    }

    fn source(&self) -> (r: ExtensionSource) {
        ExtensionSource::FirstParty
    }
}

/// Internal kernel registration errors.
#[derive(Debug, Clone, PartialEq, Eq)]
pub enum ExtensionKernelError {
    InvalidManifest(ManifestValidationError),
    DuplicateExtensionId(String),
    ExtensionNotFound(String),
    CapabilityDenied { extension_id: String, capability: RuntimeCapability },
}

/// A kernel error with its texts as characters.
pub enum KernelIssue {
    InvalidManifest(ManifestIssue),
    DuplicateExtensionId(Seq<char>),
    ExtensionNotFound(Seq<char>),
    CapabilityDenied { extension_id: Seq<char>, capability: RuntimeCapability },
}

impl View for ExtensionKernelError {
    type V = KernelIssue;

    open spec fn view(&self) -> KernelIssue {
        match self {
            ExtensionKernelError::InvalidManifest(e) => KernelIssue::InvalidManifest(e@),
            ExtensionKernelError::DuplicateExtensionId(id) => KernelIssue::DuplicateExtensionId(id@),
            ExtensionKernelError::ExtensionNotFound(id) => KernelIssue::ExtensionNotFound(id@),
            ExtensionKernelError::CapabilityDenied { extension_id, capability } => KernelIssue::CapabilityDenied {
                extension_id: extension_id@,
                capability: *capability,
            },
        }
    }
}

/// The views of registered extensions.
pub open spec fn entry_views(entries: Seq<RegisteredExtension>) -> Seq<RegisteredView> {
    entries.map_values(|e: RegisteredExtension| e@)
}

/// The views of borrowed registered extensions.
pub open spec fn borrowed_views(entries: Seq<&RegisteredExtension>) -> Seq<RegisteredView> {
    entries.map_values(|e: &RegisteredExtension| e@)
}

/// The entries stand in the order of their ids, so no id stands twice.
pub open spec fn sorted_by_id(entries: Seq<RegisteredView>) -> bool {
    forall|i: int, j: int|
        0 <= i < j < entries.len() ==> lex_lt(
            (#[trigger] entries[i]).manifest.id,
            (#[trigger] entries[j]).manifest.id,
        )
}

/// In a registry in the order of ids no id stands twice.
pub proof fn lemma_each_id_once(entries: Seq<RegisteredView>, i: int, j: int)
    requires
        sorted_by_id(entries),
        0 <= i < entries.len(),
        0 <= j < entries.len(),
        i != j,
    ensures
        entries[i].manifest.id != entries[j].manifest.id,
{
    lemma_lex_irreflexive(entries[i].manifest.id);
    if i < j {
        assert(lex_lt(entries[i].manifest.id, entries[j].manifest.id));
    } else {
        assert(lex_lt(entries[j].manifest.id, entries[i].manifest.id));
    }
}

/// Some entry has the id `id`.
pub open spec fn registered(entries: Seq<RegisteredView>, id: Seq<char>) -> bool {
    exists|i: int| 0 <= i < entries.len() && (#[trigger] entries[i]).manifest.id == id
}

/// The entry with the id `id`; meaningful where there is one.
pub open spec fn entry_of(entries: Seq<RegisteredView>, id: Seq<char>) -> RegisteredView {
    entries[choose|i: int| 0 <= i < entries.len() && (#[trigger] entries[i]).manifest.id == id]
}

/// The test "declares the capability `capability`".
pub open spec fn declares(capability: Seq<char>) -> spec_fn(RegisteredView) -> bool {
    |e: RegisteredView| e.manifest.capabilities.contains(capability)
}

/// The entry that registering the manifest `m` from `source` adds.
pub open spec fn entry_for(m: ManifestView, source: ExtensionSource) -> RegisteredView {
    RegisteredView { manifest: m, runtime_capabilities: declared(m), source }
}

/// Why the manifest `m` cannot be registered, if it cannot: it is invalid,
/// or its id is taken.
pub open spec fn registration_issue(entries: Seq<RegisteredView>, m: ManifestView) -> Option<KernelIssue> {
    if manifest_issue(m) is Some {
        Some(KernelIssue::InvalidManifest(manifest_issue(m)->0))
    } else if registered(entries, m.id) {
        Some(KernelIssue::DuplicateExtensionId(m.id))
    } else {
        None
    }
}

/// Why extension `id` may not use `capability`, if it may not: it is not
/// registered, or it did not declare the capability.
pub open spec fn capability_issue(entries: Seq<RegisteredView>, id: Seq<char>, capability: RuntimeCapability) -> Option<
    KernelIssue,
> {
    if !registered(entries, id) {
        Some(KernelIssue::ExtensionNotFound(id))
    } else if !entry_of(entries, id).runtime_capabilities.contains(capability) {
        Some(KernelIssue::CapabilityDenied { extension_id: id, capability })
    } else {
        None
    }
}

/// The first reason why extension `id` may not use the first `n` of the
/// capabilities `needed`, if there is one.
pub open spec fn capabilities_issue(
    entries: Seq<RegisteredView>,
    id: Seq<char>,
    needed: Seq<RuntimeCapability>,
    n: nat,
) -> Option<KernelIssue>
    decreases n,
{
    if n == 0 {
        None
    } else if capabilities_issue(entries, id, needed, (n - 1) as nat) is Some {
        capabilities_issue(entries, id, needed, (n - 1) as nat)
    } else {
        capability_issue(entries, id, needed[n - 1])
    }
}

/// Why extension `id` may not make the invocation, if it may not.
pub open spec fn invocation_issue(entries: Seq<RegisteredView>, id: Seq<char>, invocation: ExtensionInvocation) -> Option<
    KernelIssue,
> {
    capabilities_issue(entries, id, required(invocation), required(invocation).len())
}

/// In-process extension registry for declaration contracts.
#[derive(Debug)]
pub struct ExtensionRegistry {
    entries: Vec<RegisteredExtension>,
}

impl View for ExtensionRegistry {
    type V = Seq<RegisteredView>;

    closed spec fn view(&self) -> Seq<RegisteredView> {
        entry_views(self.entries@)
    }
}

fn has_capability(set: &Vec<RuntimeCapability>, capability: RuntimeCapability) -> (r: bool)
    ensures
        r == set@.contains(capability),
{
    let mut i: usize = 0;
    while i < set.len()
        invariant
            i <= set.len(),
            forall|j: int| 0 <= j < i ==> set[j] != capability,
        decreases set.len() - i,
    {
        if set[i] == capability {
            return true;
        }
        i += 1;
    }
    false
}

impl ExtensionRegistry {
    /// The entries stand in the order of their ids, each id once.
    pub open spec fn well_formed(&self) -> bool {
        sorted_by_id(self@)
    }

    /// An empty registry.
    pub fn new() -> (r: Self)
        ensures
            r@ == Seq::<RegisteredView>::empty(),
            r.well_formed(),
    {
        let r = ExtensionRegistry { entries: Vec::new() };
        assert(r@ =~= Seq::<RegisteredView>::empty());
        r
    }

    fn find(&self, extension_id: &str) -> (r: Option<usize>)
        requires
            self.well_formed(),
        ensures
            match r {
                Some(i) => i < self.entries.len() && registered(self@, extension_id@) && entry_of(
                    self@,
                    extension_id@,
                ) == self.entries[i as int]@ && self@[i as int].manifest.id == extension_id@,
                None => !registered(self@, extension_id@),
            },
    {
        let mut i: usize = 0;
        while i < self.entries.len()
            invariant
                i <= self.entries.len(),
                self.well_formed(),
                forall|j: int| 0 <= j < i ==> (#[trigger] self@[j]).manifest.id != extension_id@,
            decreases self.entries.len() - i,
        {
            if same_text(self.entries[i].manifest.id.as_str(), extension_id) {
                proof {
                    assert(self@[i as int].manifest.id == extension_id@);
                    let k = choose|k: int|
                        0 <= k < self@.len() && (#[trigger] self@[k]).manifest.id == extension_id@;
                    if k != i {
                        lemma_lex_irreflexive(extension_id@);
                        if k < i {
                            assert(lex_lt(self@[k].manifest.id, self@[i as int].manifest.id));
                        } else {
                            assert(lex_lt(self@[i as int].manifest.id, self@[k].manifest.id));
                        }
                    }
                }
                return Some(i);
            }
            i += 1;
        }
        None
    }

    /// Registers one adapter after manifest declaration validation. The
    /// entry takes its place in the order of ids.
    pub fn register_adapter<A: ExtensionAdapter>(&mut self, adapter: &A) -> (r: Result<
        (),
        ExtensionKernelError,
    >)
        requires
            old(self).well_formed(),
        ensures
            final(self).well_formed(),
            match r {
                Ok(()) => registration_issue(old(self)@, adapter.declared_manifest()) is None
                    && exists|at: int|
                    0 <= at <= old(self)@.len() && final(self)@ == #[trigger] old(self)@.insert(
                        at,
                        entry_for(adapter.declared_manifest(), adapter.declared_source()),
                    ),
                Err(e) => registration_issue(old(self)@, adapter.declared_manifest()) == Some(e@)
                    && final(self)@ == old(self)@,
            },
    {
        let manifest = adapter.manifest().duplicate();
        match manifest.validate() {
            Ok(()) => {},
            Err(e) => {
                return Err(ExtensionKernelError::InvalidManifest(e));
            },
        }
        let runtime_capabilities = match manifest.declared_runtime_capabilities() {
            Ok(set) => set,
            Err(e) => {
                return Err(ExtensionKernelError::InvalidManifest(e));
            },
        };
        if self.find(manifest.id.as_str()).is_some() {
            return Err(ExtensionKernelError::DuplicateExtensionId(manifest.id.clone()));
        }
        let mut at: usize = 0;
        while at < self.entries.len() && text_less(
            self.entries[at].manifest.id.as_str(),
            manifest.id.as_str(),
        )
            invariant
                at <= self.entries.len(),
                forall|k: int| 0 <= k < at ==> lex_lt((#[trigger] self@[k]).manifest.id, manifest.id@),
            decreases self.entries.len() - at,
        {
            at += 1;
        }
        let entry = RegisteredExtension { manifest, runtime_capabilities, source: adapter.source() };
        let ghost before = self@;
        let ghost added = entry@;
        proof {
            if at < before.len() {
                assert(before[at as int].manifest.id != added.manifest.id);
                lemma_lex_total(before[at as int].manifest.id, added.manifest.id);
                assert forall|k: int| at <= k < before.len() implies lex_lt(
                    added.manifest.id,
                    (#[trigger] before[k]).manifest.id,
                ) by {
                    if k > at {
                        lemma_lex_transitive(
                            added.manifest.id,
                            before[at as int].manifest.id,
                            before[k].manifest.id,
                        );
                    }
                }
            }
        }
        self.entries.insert(at, entry);
        proof {
            assert(self@ =~= before.insert(at as int, added));
            assert forall|i: int, j: int| 0 <= i < j < self@.len() implies lex_lt(
                (#[trigger] self@[i]).manifest.id,
                (#[trigger] self@[j]).manifest.id,
            ) by {
                let a = if i < at { i } else { i - 1 };
                let b = if j < at { j } else { j - 1 };
                if i != at {
                    assert(self@[i] == before[a]);
                }
                if j != at {
                    assert(self@[j] == before[b]);
                }
                if i != at && j != at {
                    assert(lex_lt(before[a].manifest.id, before[b].manifest.id));
                }
            }
        }
        Ok(())
    }

    /// Registers the default first-party baseline adapter.
    pub fn register_first_party_baseline(&mut self) -> (r: Result<(), ExtensionKernelError>)
        requires
            old(self).well_formed(),
        ensures
            final(self).well_formed(),
            match r {
                Ok(()) => registration_issue(old(self)@, baseline_manifest()) is None && exists|at: int|
                    0 <= at <= old(self)@.len() && final(self)@ == #[trigger] old(self)@.insert(
                        at,
                        entry_for(baseline_manifest(), ExtensionSource::FirstParty),
                    ),
                Err(e) => registration_issue(old(self)@, baseline_manifest()) == Some(e@) && final(self)@
                    == old(self)@,
            },
            r is Ok <==> !registered(old(self)@, baseline_manifest().id),
            r is Err ==> r->Err_0@ == KernelIssue::DuplicateExtensionId(baseline_manifest().id),
    {
        proof {
            lemma_baseline_manifest_valid();
        }
        let adapter = FirstPartyExtensionAdapter::notes_shell_baseline();
        self.register_adapter(&adapter)
    }

    pub fn len(&self) -> (r: usize)
        ensures
            r == self@.len(),
    {
        self.entries.len()
    }

    pub fn is_empty(&self) -> (r: bool)
        ensures
            r == (self@.len() == 0),
    {
        self.entries.len() == 0
    }

    /// The registered extension with the id `extension_id`.
    pub fn get(&self, extension_id: &str) -> (r: Option<&RegisteredExtension>)
        requires
            self.well_formed(),
        ensures
            match r {
                Some(entry) => registered(self@, extension_id@) && entry@ == entry_of(self@, extension_id@),
                None => !registered(self@, extension_id@),
            },
    {
        match self.find(extension_id) {
            Some(i) => Some(&self.entries[i]),
            None => None,
        }
    }

    /// The registered extensions that declare `capability`, each once, in
    /// ascending order of their ids.
    pub fn list_by_capability(&self, capability: &str) -> (r: Vec<&RegisteredExtension>)
        requires
            self.well_formed(),
        ensures
            borrowed_views(r@) == self@.filter(declares(capability@)),
            sorted_by_id(borrowed_views(r@)),
    {
        let mut out: Vec<&RegisteredExtension> = Vec::new();
        let ghost mut from: Seq<int> = Seq::empty();
        let mut i: usize = 0;
        proof {
            reveal(Seq::filter);
            assert(self@.take(0) =~= Seq::empty());
            assert(borrowed_views(out@) =~= Seq::empty());
        }
        while i < self.entries.len()
            invariant
                i <= self.entries.len(),
                borrowed_views(out@) == self@.take(i as int).filter(declares(capability@)),
                from.len() == out@.len(),
                forall|k: int|
                    0 <= k < from.len() ==> 0 <= #[trigger] from[k] < i && borrowed_views(out@)[k]
                        == self@[from[k]],
                forall|a: int, b: int| 0 <= a < b < from.len() ==> from[a] < from[b],
            decreases self.entries.len() - i,
        {
            let ghost before = borrowed_views(out@);
            proof {
                reveal(Seq::filter);
                assert(self@.take(i as int + 1).drop_last() =~= self@.take(i as int));
                assert(self@.take(i as int + 1).last() == self.entries[i as int]@);
            }
            if has_text(&self.entries[i].manifest.capabilities, capability) {
                out.push(&self.entries[i]);
                proof {
                    from = from.push(i as int);
                    assert(borrowed_views(out@) =~= before.push(self.entries[i as int]@));
                }
            }
            i += 1;
        }
        proof {
            assert(self@.take(self.entries.len() as int) =~= self@);
            let listed = borrowed_views(out@);
            assert forall|a: int, b: int| 0 <= a < b < listed.len() implies lex_lt(
                (#[trigger] listed[a]).manifest.id,
                (#[trigger] listed[b]).manifest.id,
            ) by {
                assert(from[a] < from[b]);
                assert(listed[a] == self@[from[a]] && listed[b] == self@[from[b]]);
            }
        }
        out
    }

    /// Enforces runtime capability declaration at extension invocation boundary.
    ///
    /// Deny-by-default: undeclared capability access is rejected.
    pub fn assert_runtime_capability(&self, extension_id: &str, capability: RuntimeCapability) -> (r:
        Result<(), ExtensionKernelError>)
        requires
            self.well_formed(),
        ensures
            match r {
                Ok(()) => capability_issue(self@, extension_id@, capability) is None,
                Err(e) => capability_issue(self@, extension_id@, capability) == Some(e@),
            },
    {
        let i = match self.find(extension_id) {
            Some(i) => i,
            None => {
                return Err(ExtensionKernelError::ExtensionNotFound(extension_id.to_owned()));
            },
        };
        if has_capability(&self.entries[i].runtime_capabilities, capability) {
            return Ok(());
        }
        Err(
            ExtensionKernelError::CapabilityDenied {
                extension_id: extension_id.to_owned(),
                capability,
            },
        )
    }

    /// Enforces runtime capability declarations for one invocation kind.
    pub fn assert_invocation_allowed(&self, extension_id: &str, invocation: ExtensionInvocation) -> (r:
        Result<(), ExtensionKernelError>)
        requires
            self.well_formed(),
        ensures
            match r {
                Ok(()) => invocation_issue(self@, extension_id@, invocation) is None,
                Err(e) => invocation_issue(self@, extension_id@, invocation) == Some(e@),
            },
    {
        let needed = invocation.required_capabilities();
        let mut i: usize = 0;
        while i < needed.len()
            invariant
                i <= needed.len(),
                self.well_formed(),
                needed@ == required(invocation),
                capabilities_issue(self@, extension_id@, needed@, i as nat) is None,
            decreases needed.len() - i,
        {
            match self.assert_runtime_capability(extension_id, needed[i]) {
                Ok(()) => {},
                Err(e) => {
                    proof {
                        assert(capabilities_issue(self@, extension_id@, needed@, (i + 1) as nat) == Some(
                            e@,
                        ));
                        lemma_issue_stays(self@, extension_id@, needed@, (i + 1) as nat, needed@.len());
                    }
                    return Err(e);
                },
            }
            i += 1;
        }
        Ok(())
    }
}

/// Once a needed capability is refused, that refusal stays the first one.
pub proof fn lemma_issue_stays(
    entries: Seq<RegisteredView>,
    id: Seq<char>,
    needed: Seq<RuntimeCapability>,
    i: nat,
    n: nat,
)
    requires
        i <= n,
        capabilities_issue(entries, id, needed, i) is Some,
    ensures
        capabilities_issue(entries, id, needed, n) == capabilities_issue(entries, id, needed, i),
    decreases n,
{
    if i < n {
        lemma_issue_stays(entries, id, needed, i, (n - 1) as nat);
    }
}

/// What a kernel error says.
pub open spec fn kernel_error_text(e: KernelIssue) -> Seq<char> {
    match e {
        KernelIssue::InvalidManifest(err) => "invalid extension manifest: "@ + manifest_error_text(err),
        KernelIssue::DuplicateExtensionId(v) => "extension id already registered: "@ + v,
        KernelIssue::ExtensionNotFound(v) => "extension id not found: "@ + v,
        KernelIssue::CapabilityDenied { extension_id, capability } => "extension capability denied: extension `"@
            + extension_id + "` missing `"@ + capability_text(capability) + "`"@,
    }
}

impl ExtensionKernelError {
    /// The message of this error.
    pub fn message(&self) -> (r: String)
        ensures
            r@ == kernel_error_text(self@),
    {
        match self {
            ExtensionKernelError::InvalidManifest(err) => join2(
                "invalid extension manifest: ",
                err.message().as_str(),
            ),
            ExtensionKernelError::DuplicateExtensionId(v) => join2(
                "extension id already registered: ",
                v.as_str(),
            ),
            ExtensionKernelError::ExtensionNotFound(v) => join2("extension id not found: ", v.as_str()),
            ExtensionKernelError::CapabilityDenied { extension_id, capability } => {
                let mut r = join3(
                    "extension capability denied: extension `",
                    extension_id.as_str(),
                    "` missing `",
                );
                r.append(capability.as_str());
                r.append("`");
                r
            },
        }
    }
}

} // verus!
