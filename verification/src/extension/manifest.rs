//! Extension manifest declaration and validation.

use vstd::prelude::*;
use crate::text::texts;
use crate::text::optional_text;
use crate::text::join2;
use crate::text::join3;
use crate::extension::capability::RuntimeCapability;
use crate::extension::capability::RuntimeCapabilityError;
use crate::extension::capability::capability_of;
use crate::extension::capability::capability_text;
use crate::extension::capability::lemma_capability_texts_differ;
use crate::extension::capability::parse_runtime_capability;
use crate::outside::same_text;
use crate::text::trim;
use crate::text::blank;
use crate::text::canonical;
use crate::text::chars_of;
use crate::text::lemma_trimmed_is_canonical;
use crate::text::trimmed;

verus! {

/// Capability string for command action registration.
pub const CAPABILITY_COMMAND: &'static str = "command";

/// Capability string for input parser registration.
pub const CAPABILITY_PARSER: &'static str = "parser";

/// Capability string for provider SPI registration.
pub const CAPABILITY_PROVIDER: &'static str = "provider";

/// Capability string for UI slot metadata registration.
pub const CAPABILITY_UI_SLOT: &'static str = "ui_slot";

/// Whether `text` is one of the four capability strings of a manifest.
pub open spec fn supported_capability(text: Seq<char>) -> bool {
    text == "command"@ || text == "parser"@ || text == "provider"@ || text == "ui_slot"@
}

/// Returns supported capability strings for manifest validation.
pub fn supported_capabilities() -> (r: Vec<&'static str>)
    ensures
        r@.len() == 4,
        r@[0]@ == "command"@,
        r@[1]@ == "parser"@,
        r@[2]@ == "provider"@,
        r@[3]@ == "ui_slot"@,
        forall|i: int| 0 <= i < 4 ==> supported_capability(#[trigger] r@[i]@),
{
    let mut r: Vec<&'static str> = Vec::new();
    r.push("command");
    r.push("parser");
    r.push("provider");
    r.push("ui_slot");
    r
}

/// Declared entrypoint identifiers for one extension.
#[derive(Debug, Clone, PartialEq, Eq)]
pub struct ManifestEntrypoints {
    pub init: Option<String>,
    pub dispose: Option<String>,
    pub health: Option<String>,
    pub command_action: Option<String>,
    pub input_parser: Option<String>,
    pub provider_spi: Option<String>,
    pub ui_slot: Option<String>,
}

/// Entrypoint declarations as characters.
pub struct EntrypointsView {
    pub init: Option<Seq<char>>,
    pub dispose: Option<Seq<char>>,
    pub health: Option<Seq<char>>,
    pub command_action: Option<Seq<char>>,
    pub input_parser: Option<Seq<char>>,
    pub provider_spi: Option<Seq<char>>,
    pub ui_slot: Option<Seq<char>>,
}

impl View for ManifestEntrypoints {
    type V = EntrypointsView;

    open spec fn view(&self) -> EntrypointsView {
        EntrypointsView {
            init: optional_text(self.init),
            dispose: optional_text(self.dispose),
            health: optional_text(self.health),
            command_action: optional_text(self.command_action),
            input_parser: optional_text(self.input_parser),
            provider_spi: optional_text(self.provider_spi),
            ui_slot: optional_text(self.ui_slot),
        }
    }
}

fn copy_optional(value: &Option<String>) -> (r: Option<String>)
    ensures
        optional_text(r) == optional_text(*value),
{
    match value {
        Some(s) => Some(s.clone()),
        None => None,
    }
}

fn copy_texts(values: &Vec<String>) -> (r: Vec<String>)
    ensures
        texts(r@) == texts(values@),
{
    let mut r: Vec<String> = Vec::new();
    let mut i: usize = 0;
    while i < values.len()
        invariant
            i <= values.len(),
            r.len() == i,
            forall|j: int| 0 <= j < i ==> (#[trigger] r[j])@ == values[j]@,
        decreases values.len() - i,
    {
        r.push(values[i].clone());
        i += 1;
    }
    assert(texts(r@) =~= texts(values@));
    r
}

impl ManifestEntrypoints {
    /// Creates an empty entrypoint declaration.
    pub fn empty() -> (r: Self)
        ensures
            r@ == (EntrypointsView {
                init: None,
                dispose: None,
                health: None,
                command_action: None,
                input_parser: None,
                provider_spi: None,
                ui_slot: None,
            }),
    {
        ManifestEntrypoints {
            init: None,
            dispose: None,
            health: None,
            command_action: None,
            input_parser: None,
            provider_spi: None,
            ui_slot: None,
        }
    }

    /// A copy of these declarations.
    pub fn duplicate(&self) -> (r: Self)
        ensures
            r@ == self@,
    {
        ManifestEntrypoints {
            init: copy_optional(&self.init),
            dispose: copy_optional(&self.dispose),
            health: copy_optional(&self.health),
            command_action: copy_optional(&self.command_action),
            input_parser: copy_optional(&self.input_parser),
            provider_spi: copy_optional(&self.provider_spi),
            ui_slot: copy_optional(&self.ui_slot),
        }
    }
}

/// Declarative extension manifest.
#[derive(Debug, Clone, PartialEq, Eq)]
pub struct ExtensionManifest {
    /// Stable extension identifier, e.g. `builtin.notes.shell`.
    pub id: String,
    /// Manifest semantic version string (`major.minor.patch`).
    pub version: String,
    /// Declared capabilities (`command|parser|provider|ui_slot`).
    pub capabilities: Vec<String>,
    /// Declared runtime capabilities (`network|file|notification|calendar`).
    ///
    /// Empty declaration is valid and treated as deny-by-default during
    /// invocation-time capability checks.
    pub runtime_capabilities: Vec<String>,
    /// Entry point declarations (string identifiers only).
    pub entrypoints: ManifestEntrypoints,
}

/// A manifest as characters.
pub struct ManifestView {
    pub id: Seq<char>,
    pub version: Seq<char>,
    pub capabilities: Seq<Seq<char>>,
    pub runtime_capabilities: Seq<Seq<char>>,
    pub entrypoints: EntrypointsView,
}

impl View for ExtensionManifest {
    type V = ManifestView;

    open spec fn view(&self) -> ManifestView {
        ManifestView {
            id: self.id@,
            version: self.version@,
            capabilities: texts(self.capabilities@),
            runtime_capabilities: texts(self.runtime_capabilities@),
            entrypoints: self.entrypoints@,
        }
    }
}

/// Internal manifest validation errors.
#[derive(Debug, Clone, PartialEq, Eq)]
pub enum ManifestValidationError {
    EmptyId,
    NonCanonicalId(String),
    InvalidId(String),
    EmptyVersion,
    InvalidVersion(String),
    MissingCapabilities,
    EmptyCapability,
    NonCanonicalCapability(String),
    UnsupportedCapability(String),
    DuplicateCapability(String),
    EmptyRuntimeCapability,
    NonCanonicalRuntimeCapability(String),
    UnsupportedRuntimeCapability(String),
    DuplicateRuntimeCapability(String),
    MissingEntrypoint(&'static str),
}

/// A validation error with its text as characters.
pub enum ManifestIssue {
    EmptyId,
    NonCanonicalId(Seq<char>),
    InvalidId(Seq<char>),
    EmptyVersion,
    InvalidVersion(Seq<char>),
    MissingCapabilities,
    EmptyCapability,
    NonCanonicalCapability(Seq<char>),
    UnsupportedCapability(Seq<char>),
    DuplicateCapability(Seq<char>),
    EmptyRuntimeCapability,
    NonCanonicalRuntimeCapability(Seq<char>),
    UnsupportedRuntimeCapability(Seq<char>),
    DuplicateRuntimeCapability(Seq<char>),
    MissingEntrypoint(Seq<char>),
}

impl View for ManifestValidationError {
    type V = ManifestIssue;

    open spec fn view(&self) -> ManifestIssue {
        match self {
            ManifestValidationError::EmptyId => ManifestIssue::EmptyId,
            ManifestValidationError::NonCanonicalId(t) => ManifestIssue::NonCanonicalId(t@),
            ManifestValidationError::InvalidId(t) => ManifestIssue::InvalidId(t@),
            ManifestValidationError::EmptyVersion => ManifestIssue::EmptyVersion,
            ManifestValidationError::InvalidVersion(t) => ManifestIssue::InvalidVersion(t@),
            ManifestValidationError::MissingCapabilities => ManifestIssue::MissingCapabilities,
            ManifestValidationError::EmptyCapability => ManifestIssue::EmptyCapability,
            ManifestValidationError::NonCanonicalCapability(t) => ManifestIssue::NonCanonicalCapability(
                t@,
            ),
            ManifestValidationError::UnsupportedCapability(t) => ManifestIssue::UnsupportedCapability(t@),
            ManifestValidationError::DuplicateCapability(t) => ManifestIssue::DuplicateCapability(t@),
            ManifestValidationError::EmptyRuntimeCapability => ManifestIssue::EmptyRuntimeCapability,
            ManifestValidationError::NonCanonicalRuntimeCapability(t) => ManifestIssue::NonCanonicalRuntimeCapability(t@),
            ManifestValidationError::UnsupportedRuntimeCapability(t) => ManifestIssue::UnsupportedRuntimeCapability(t@),
            ManifestValidationError::DuplicateRuntimeCapability(t) => ManifestIssue::DuplicateRuntimeCapability(t@),
            ManifestValidationError::MissingEntrypoint(t) => ManifestIssue::MissingEntrypoint(t@),
        }
    }
}

/// A lower-case ASCII letter or an ASCII digit.
pub open spec fn id_char(c: char) -> bool {
    ('a' <= c && c <= 'z') || digit(c)
}

/// An ASCII digit.
pub open spec fn digit(c: char) -> bool {
    '0' <= c && c <= '9'
}

/// One of the separators `.`, `_`, `-`.
pub open spec fn separator(c: char) -> bool {
    c == '.' || c == '_' || c == '-'
}

/// An extension id is made of lower-case letters, digits and single
/// separators, and neither starts nor ends with a separator.
pub open spec fn valid_extension_id(s: Seq<char>) -> bool {
    &&& s.len() > 0
    &&& id_char(s.first())
    &&& !separator(s.last())
    &&& forall|i: int| 0 <= i < s.len() ==> id_char(#[trigger] s[i]) || separator(s[i])
    &&& forall|i: int| 0 <= i < s.len() - 1 ==> !(separator(#[trigger] s[i]) && separator(s[i + 1]))
}

/// A version is three non-empty runs of digits with a `.` between them.
pub open spec fn semver_triplet(s: Seq<char>) -> bool {
    exists|a: int, b: int| #[trigger] dots_at(s, a, b)
}

/// The two dots of the version `s` stand at `a` and `b`.
pub open spec fn dots_at(s: Seq<char>, a: int, b: int) -> bool {
    &&& 0 < a
    &&& a + 1 < b
    &&& b + 1 < s.len()
    &&& s[a] == '.'
    &&& s[b] == '.'
    &&& forall|i: int| 0 <= i < s.len() && i != a && i != b ==> digit(#[trigger] s[i])
}

fn is_id_char(c: char) -> (r: bool)
    ensures
        r == id_char(c),
{
    ('a' <= c && c <= 'z') || ('0' <= c && c <= '9')
}

fn is_digit(c: char) -> (r: bool)
    ensures
        r == digit(c),
{
    '0' <= c && c <= '9'
}

fn is_separator(c: char) -> (r: bool)
    ensures
        r == separator(c),
{
    c == '.' || c == '_' || c == '-'
}

/// Whether `value` is a well-formed extension id.
pub fn is_valid_extension_id(value: &str) -> (r: bool)
    ensures
        r == valid_extension_id(value@),
{
    let chars = chars_of(value);
    if chars.len() == 0 {
        return false;
    }
    if !is_id_char(chars[0]) {
        return false;
    }
    let mut prev_separator = false;
    let mut i: usize = 1;
    while i < chars.len()
        invariant
            1 <= i <= chars.len(),
            chars@ == value@,
            id_char(chars@[0]),
            prev_separator == separator(chars@[i - 1]),
            forall|j: int| 0 <= j < i ==> id_char(#[trigger] chars@[j]) || separator(chars@[j]),
            forall|j: int| 0 <= j < i - 1 ==> !(separator(#[trigger] chars@[j]) && separator(chars@[j + 1])),
        decreases chars.len() - i,
    {
        let c = chars[i];
        if is_id_char(c) {
            prev_separator = false;
        } else if is_separator(c) {
            if prev_separator {
                assert(separator(chars@[i - 1]) && separator(chars@[i - 1 + 1]));
                return false;
            }
            prev_separator = true;
        } else {
            assert(!(id_char(chars@[i as int]) || separator(chars@[i as int])));
            return false;
        }
        i += 1;
    }
    !prev_separator
}

/// Whether `value` is a `major.minor.patch` version.
#[verifier::loop_isolation(false)]
pub fn is_semver_triplet(value: &str) -> (r: bool)
    ensures
        r == semver_triplet(value@),
{
    let chars = chars_of(value);
    let ghost s = value@;
    let mut dots: usize = 0;
    let mut part: usize = 0;
    let ghost mut first: int = -1;
    let ghost mut second: int = -1;
    let mut i: usize = 0;
    while i < chars.len()
        invariant
            i <= chars.len(),
            chars@ == s,
            dots <= 2,
            part <= i,
            dots == 0 ==> part == i && first == -1 && second == -1,
            dots == 1 ==> 0 < first < i && part == i - first - 1 && second == -1 && s[first] == '.',
            dots == 2 ==> 0 < first && first + 1 < second && second < i && part == i - second - 1
                && s[first] == '.' && s[second] == '.',
            forall|j: int| 0 <= j < i && j != first && j != second ==> digit(#[trigger] s[j]),
        decreases chars.len() - i,
    {
        let c = chars[i];
        if c == '.' {
            if part == 0 || dots == 2 {
                proof {
                    assert forall|a: int, b: int| !#[trigger] dots_at(s, a, b) by {
                        if dots_at(s, a, b) {
                            assert(!digit(s[i as int]));
                            assert(i == a || i == b);
                            if first >= 0 {
                                assert(!digit(s[first]));
                                assert(first == a || first == b);
                            }
                            if second >= 0 {
                                assert(!digit(s[second]));
                                assert(second == a || second == b);
                            }
                            if part == 0 && i > 0 {
                                assert(!digit(s[i - 1]));
                            }
                        }
                    }
                }
                return false;
            }
            dots += 1;
            part = 0;
            proof {
                if dots == 1 {
                    first = i as int;
                } else {
                    second = i as int;
                }
            }
        } else if is_digit(c) {
            part += 1;
        } else {
            proof {
                assert forall|a: int, b: int| !#[trigger] dots_at(s, a, b) by {
                    if dots_at(s, a, b) {
                        assert(s[i as int] != '.' && !digit(s[i as int]));
                    }
                }
            }
            return false;
        }
        i += 1;
    }
    if dots == 2 && part > 0 {
        assert(dots_at(s, first, second));
        true
    } else {
        proof {
            assert forall|a: int, b: int| !#[trigger] dots_at(s, a, b) by {
                if dots_at(s, a, b) {
                    assert(!digit(s[a]) && !digit(s[b]));
                    if dots == 2 {
                        assert(!digit(s[second]));
                        assert(second == s.len() - 1);
                    }
                }
            }
        }
        false
    }
}

/// An entrypoint that is not declared, or declared blank.
pub open spec fn entrypoint_missing(value: Option<Seq<char>>) -> bool {
    value is None || blank(value->0)
}

fn require_entrypoint(value: &Option<String>, name: &'static str) -> (r: Result<
    (),
    ManifestValidationError,
>)
    ensures
        match r {
            Ok(()) => !entrypoint_missing(optional_text(*value)),
            Err(e) => entrypoint_missing(optional_text(*value)) && e@ == ManifestIssue::MissingEntrypoint(
                name@,
            ),
        },
{
    match value {
        Some(raw) => {
            if trim(raw.as_str()).is_empty() {
                Err(ManifestValidationError::MissingEntrypoint(name))
            } else {
                Ok(())
            }
        },
        None => Err(ManifestValidationError::MissingEntrypoint(name)),
    }
}

/// The entrypoint that a capability asks for, as its name, if it is missing.
pub open spec fn capability_entrypoint_issue(e: EntrypointsView, capability: Seq<char>) -> Option<
    ManifestIssue,
> {
    if capability == "command"@ && entrypoint_missing(e.command_action) {
        Some(ManifestIssue::MissingEntrypoint("command_action"@))
    } else if capability == "parser"@ && entrypoint_missing(e.input_parser) {
        Some(ManifestIssue::MissingEntrypoint("input_parser"@))
    } else if capability == "provider"@ && entrypoint_missing(e.provider_spi) {
        Some(ManifestIssue::MissingEntrypoint("provider_spi"@))
    } else if capability == "ui_slot"@ && entrypoint_missing(e.ui_slot) {
        Some(ManifestIssue::MissingEntrypoint("ui_slot"@))
    } else {
        None
    }
}

/// What is wrong with the capability at `i`, given that those before it
/// are in order: it is blank, not trimmed, unknown, declared before, or
/// its entrypoint is missing.
pub open spec fn capability_issue(m: ManifestView, i: int) -> Option<ManifestIssue> {
    let raw = m.capabilities[i];
    if blank(raw) {
        Some(ManifestIssue::EmptyCapability)
    } else if !canonical(raw) {
        Some(ManifestIssue::NonCanonicalCapability(raw))
    } else if !supported_capability(raw) {
        Some(ManifestIssue::UnsupportedCapability(raw))
    } else if m.capabilities.take(i).contains(raw) {
        Some(ManifestIssue::DuplicateCapability(raw))
    } else {
        capability_entrypoint_issue(m.entrypoints, raw)
    }
}

/// What is wrong with the runtime capability at `i`, given that those
/// before it are in order: it is blank, not trimmed, unknown, or declared before.
pub open spec fn runtime_issue(m: ManifestView, i: int) -> Option<ManifestIssue> {
    let raw = m.runtime_capabilities[i];
    if blank(raw) {
        Some(ManifestIssue::EmptyRuntimeCapability)
    } else if !canonical(raw) {
        Some(ManifestIssue::NonCanonicalRuntimeCapability(raw))
    } else if capability_of(raw) is None {
        Some(ManifestIssue::UnsupportedRuntimeCapability(raw))
    } else if m.runtime_capabilities.take(i).contains(raw) {
        Some(ManifestIssue::DuplicateRuntimeCapability(raw))
    } else {
        None
    }
}

/// The first thing wrong among the capabilities before `n`.
pub open spec fn capabilities_issue(m: ManifestView, n: nat) -> Option<ManifestIssue>
    decreases n,
{
    if n == 0 {
        None
    } else if capabilities_issue(m, (n - 1) as nat) is Some {
        capabilities_issue(m, (n - 1) as nat)
    } else {
        capability_issue(m, n - 1)
    }
}

/// The first thing wrong among the runtime capabilities before `n`.
pub open spec fn runtime_capabilities_issue(m: ManifestView, n: nat) -> Option<ManifestIssue>
    decreases n,
{
    if n == 0 {
        None
    } else if runtime_capabilities_issue(m, (n - 1) as nat) is Some {
        runtime_capabilities_issue(m, (n - 1) as nat)
    } else {
        runtime_issue(m, n - 1)
    }
}

/// The first thing wrong with a manifest, in the order in which a manifest
/// is read: id, version, capabilities, runtime capabilities, lifecycle
/// entrypoints.
pub open spec fn manifest_issue(m: ManifestView) -> Option<ManifestIssue> {
    if blank(m.id) {
        Some(ManifestIssue::EmptyId)
    } else if !canonical(m.id) {
        Some(ManifestIssue::NonCanonicalId(m.id))
    } else if !valid_extension_id(m.id) {
        Some(ManifestIssue::InvalidId(m.id))
    } else if blank(m.version) {
        Some(ManifestIssue::EmptyVersion)
    } else if !semver_triplet(trimmed(m.version)) {
        Some(ManifestIssue::InvalidVersion(m.version))
    } else if m.capabilities.len() == 0 {
        Some(ManifestIssue::MissingCapabilities)
    } else if capabilities_issue(m, m.capabilities.len()) is Some {
        capabilities_issue(m, m.capabilities.len())
    } else if runtime_capabilities_issue(m, m.runtime_capabilities.len()) is Some {
        runtime_capabilities_issue(m, m.runtime_capabilities.len())
    } else if entrypoint_missing(m.entrypoints.init) {
        Some(ManifestIssue::MissingEntrypoint("init"@))
    } else if entrypoint_missing(m.entrypoints.dispose) {
        Some(ManifestIssue::MissingEntrypoint("dispose"@))
    } else if entrypoint_missing(m.entrypoints.health) {
        Some(ManifestIssue::MissingEntrypoint("health"@))
    } else {
        None
    }
}

/// The runtime capabilities that a manifest declares, each once, in the
/// order network, file, notification, calendar.
pub open spec fn declared(m: ManifestView) -> Seq<RuntimeCapability> {
    let all = seq![
        RuntimeCapability::Network,
        RuntimeCapability::File,
        RuntimeCapability::Notification,
        RuntimeCapability::Calendar,
    ];
    all.filter(|c: RuntimeCapability| m.runtime_capabilities.contains(capability_text(c)))
}

/// Once something is wrong among the first capabilities, it stays the
/// first thing wrong.
pub proof fn lemma_capabilities_issue_stays(m: ManifestView, i: nat, n: nat)
    requires
        i <= n,
        capabilities_issue(m, i) is Some,
    ensures
        capabilities_issue(m, n) == capabilities_issue(m, i),
    decreases n,
{
    if i < n {
        lemma_capabilities_issue_stays(m, i, (n - 1) as nat);
    }
}

/// Once something is wrong among the first runtime capabilities, it stays
/// the first thing wrong.
pub proof fn lemma_runtime_issue_stays(m: ManifestView, i: nat, n: nat)
    requires
        i <= n,
        runtime_capabilities_issue(m, i) is Some,
    ensures
        runtime_capabilities_issue(m, n) == runtime_capabilities_issue(m, i),
    decreases n,
{
    if i < n {
        lemma_runtime_issue_stays(m, i, (n - 1) as nat);
    }
}

/// Whether one of the first `n` strings of `values` is `text`.
fn declared_before(values: &Vec<String>, n: usize, text: &str) -> (r: bool)
    requires
        n <= values.len(),
    ensures
        r == texts(values@).take(n as int).contains(text@),
{
    let ghost prefix = texts(values@).take(n as int);
    let mut j: usize = 0;
    while j < n
        invariant
            j <= n,
            n <= values.len(),
            prefix == texts(values@).take(n as int),
            forall|k: int| 0 <= k < j ==> prefix[k] != text@,
        decreases n - j,
    {
        if same_text(values[j].as_str(), text) {
            assert(prefix[j as int] == text@);
            return true;
        }
        j += 1;
    }
    false
}

impl ExtensionManifest {
    /// A copy of this manifest.
    pub fn duplicate(&self) -> (r: Self)
        ensures
            r@ == self@,
    {
        ExtensionManifest {
            id: self.id.clone(),
            version: self.version.clone(),
            capabilities: copy_texts(&self.capabilities),
            runtime_capabilities: copy_texts(&self.runtime_capabilities),
            entrypoints: self.entrypoints.duplicate(),
        }
    }

    fn check_capability(&self, i: usize) -> (r: Result<(), ManifestValidationError>)
        requires
            i < self.capabilities.len(),
        ensures
            match r {
                Ok(()) => capability_issue(self@, i as int) is None,
                Err(e) => capability_issue(self@, i as int) == Some(e@),
            },
    {
        let capability = &self.capabilities[i];
        let normalized = trim(capability.as_str());
        if normalized.is_empty() {
            return Err(ManifestValidationError::EmptyCapability);
        }
        if !same_text(capability.as_str(), normalized) {
            return Err(ManifestValidationError::NonCanonicalCapability(capability.clone()));
        }
        let command = same_text(normalized, "command");
        let parser = same_text(normalized, "parser");
        let provider = same_text(normalized, "provider");
        let ui_slot = same_text(normalized, "ui_slot");
        if !(command || parser || provider || ui_slot) {
            return Err(ManifestValidationError::UnsupportedCapability(normalized.to_owned()));
        }
        if declared_before(&self.capabilities, i, normalized) {
            return Err(ManifestValidationError::DuplicateCapability(normalized.to_owned()));
        }
        proof {
            reveal_strlit("command");
            reveal_strlit("parser");
            reveal_strlit("provider");
            reveal_strlit("ui_slot");
            assert("command"@.len() == 7);
            assert("parser"@.len() == 6);
            assert("provider"@.len() == 8);
            assert("ui_slot"@.len() == 7);
            assert("command"@[0] == 'c');
            assert("ui_slot"@[0] == 'u');
        }
        if command {
            require_entrypoint(&self.entrypoints.command_action, "command_action")
        } else if parser {
            require_entrypoint(&self.entrypoints.input_parser, "input_parser")
        } else if provider {
            require_entrypoint(&self.entrypoints.provider_spi, "provider_spi")
        } else {
            require_entrypoint(&self.entrypoints.ui_slot, "ui_slot")
        }
    }

    fn check_runtime_capability(&self, i: usize) -> (r: Result<RuntimeCapability, ManifestValidationError>)
        requires
            i < self.runtime_capabilities.len(),
        ensures
            match r {
                Ok(c) => runtime_issue(self@, i as int) is None && self@.runtime_capabilities[i as int]
                    == capability_text(c),
                Err(e) => runtime_issue(self@, i as int) == Some(e@),
            },
    {
        let raw = &self.runtime_capabilities[i];
        let normalized = trim(raw.as_str());
        if normalized.is_empty() {
            return Err(ManifestValidationError::EmptyRuntimeCapability);
        }
        if !same_text(raw.as_str(), normalized) {
            return Err(ManifestValidationError::NonCanonicalRuntimeCapability(raw.clone()));
        }
        proof {
            lemma_trimmed_is_canonical(raw@);
        }
        let capability = match parse_runtime_capability(normalized) {
            Ok(c) => c,
            Err(RuntimeCapabilityError::EmptyCapability) => {
                return Err(ManifestValidationError::EmptyRuntimeCapability);
            },
            Err(RuntimeCapabilityError::UnsupportedCapability(value)) => {
                return Err(ManifestValidationError::UnsupportedRuntimeCapability(value));
            },
        };
        if declared_before(&self.runtime_capabilities, i, normalized) {
            return Err(
                ManifestValidationError::DuplicateRuntimeCapability(capability.as_str().to_owned()),
            );
        }
        Ok(capability)
    }

    /// Validates declaration-level manifest invariants.
    #[verifier::loop_isolation(false)]
    pub fn validate(&self) -> (r: Result<(), ManifestValidationError>)
        ensures
            match r {
                Ok(()) => manifest_issue(self@) is None,
                Err(e) => manifest_issue(self@) == Some(e@),
            },
    {
        let normalized_id = trim(self.id.as_str());
        if normalized_id.is_empty() {
            return Err(ManifestValidationError::EmptyId);
        }
        if !same_text(self.id.as_str(), normalized_id) {
            return Err(ManifestValidationError::NonCanonicalId(self.id.clone()));
        }
        if !is_valid_extension_id(normalized_id) {
            return Err(ManifestValidationError::InvalidId(self.id.clone()));
        }
        let normalized_version = trim(self.version.as_str());
        if normalized_version.is_empty() {
            return Err(ManifestValidationError::EmptyVersion);
        }
        if !is_semver_triplet(normalized_version) {
            return Err(ManifestValidationError::InvalidVersion(self.version.clone()));
        }
        if self.capabilities.len() == 0 {
            return Err(ManifestValidationError::MissingCapabilities);
        }
        let mut i: usize = 0;
        while i < self.capabilities.len()
            invariant
                i <= self.capabilities.len(),
                capabilities_issue(self@, i as nat) is None,
            decreases self.capabilities.len() - i,
        {
            match self.check_capability(i) {
                Ok(()) => {},
                Err(e) => {
                    proof {
                        assert(capabilities_issue(self@, (i + 1) as nat) == Some(e@));
                        lemma_capabilities_issue_stays(
                            self@,
                            (i + 1) as nat,
                            self@.capabilities.len(),
                        );
                    }
                    return Err(e);
                },
            }
            i += 1;
        }
        match self.declared_runtime_capabilities() {
            Ok(_) => {},
            Err(e) => {
                return Err(e);
            },
        }
        match require_entrypoint(&self.entrypoints.init, "init") {
            Ok(()) => {},
            Err(e) => {
                return Err(e);
            },
        }
        match require_entrypoint(&self.entrypoints.dispose, "dispose") {
            Ok(()) => {},
            Err(e) => {
                return Err(e);
            },
        }
        require_entrypoint(&self.entrypoints.health, "health")
    }

    /// Returns validated runtime capability declarations as a deduplicated
    /// set, in the order network, file, notification, calendar.
    pub fn declared_runtime_capabilities(&self) -> (r: Result<
        Vec<RuntimeCapability>,
        ManifestValidationError,
    >)
        ensures
            match r {
                Ok(set) => runtime_capabilities_issue(self@, self@.runtime_capabilities.len()) is None
                    && set@ == declared(self@),
                Err(e) => runtime_capabilities_issue(self@, self@.runtime_capabilities.len()) == Some(
                    e@,
                ),
            },
    {
        let mut network = false;
        let mut file = false;
        let mut notification = false;
        let mut calendar = false;
        let ghost m = self@;
        let mut i: usize = 0;
        while i < self.runtime_capabilities.len()
            invariant
                i <= self.runtime_capabilities.len(),
                m == self@,
                runtime_capabilities_issue(m, i as nat) is None,
                network == m.runtime_capabilities.take(i as int).contains(
                    capability_text(RuntimeCapability::Network),
                ),
                file == m.runtime_capabilities.take(i as int).contains(
                    capability_text(RuntimeCapability::File),
                ),
                notification == m.runtime_capabilities.take(i as int).contains(
                    capability_text(RuntimeCapability::Notification),
                ),
                calendar == m.runtime_capabilities.take(i as int).contains(
                    capability_text(RuntimeCapability::Calendar),
                ),
            decreases self.runtime_capabilities.len() - i,
        {
            let capability = match self.check_runtime_capability(i) {
                Ok(c) => c,
                Err(e) => {
                    proof {
                        assert(runtime_capabilities_issue(m, (i + 1) as nat) == Some(e@));
                        lemma_runtime_issue_stays(m, (i + 1) as nat, m.runtime_capabilities.len());
                    }
                    return Err(e);
                },
            };
            proof {
                let before = m.runtime_capabilities.take(i as int);
                let after = m.runtime_capabilities.take(i as int + 1);
                assert(after =~= before.push(m.runtime_capabilities[i as int]));
                assert forall|c: RuntimeCapability|
                    after.contains(capability_text(c)) == (before.contains(capability_text(c)) || c
                        == capability) by {
                    vstd::seq_lib::lemma_seq_contains_after_push(
                        before,
                        m.runtime_capabilities[i as int],
                        capability_text(c),
                    );
                    lemma_capability_texts_differ(c, capability);
                }
            }
            match capability {
                RuntimeCapability::Network => {
                    network = true;
                },
                RuntimeCapability::File => {
                    file = true;
                },
                RuntimeCapability::Notification => {
                    notification = true;
                },
                RuntimeCapability::Calendar => {
                    calendar = true;
                },
            }
            i += 1;
        }
        assert(m.runtime_capabilities.take(m.runtime_capabilities.len() as int) =~= m.runtime_capabilities);
        let mut set: Vec<RuntimeCapability> = Vec::new();
        if network {
            set.push(RuntimeCapability::Network);
        }
        if file {
            set.push(RuntimeCapability::File);
        }
        if notification {
            set.push(RuntimeCapability::Notification);
        }
        if calendar {
            set.push(RuntimeCapability::Calendar);
        }
        proof {
            reveal_with_fuel(Seq::filter, 5);
            let all = seq![
                RuntimeCapability::Network,
                RuntimeCapability::File,
                RuntimeCapability::Notification,
                RuntimeCapability::Calendar,
            ];
            let pred = |c: RuntimeCapability| m.runtime_capabilities.contains(capability_text(c));
            let a1 = all.drop_last();
            let a2 = a1.drop_last();
            let a3 = a2.drop_last();
            let a4 = a3.drop_last();
            assert(a4 =~= Seq::empty());
            assert(a3 =~= seq![RuntimeCapability::Network]);
            assert(a2 =~= seq![RuntimeCapability::Network, RuntimeCapability::File]);
            assert(set@ =~= all.filter(pred));
        }
        Ok(set)
    }
}

/// What a validation error says.
pub open spec fn manifest_error_text(e: ManifestIssue) -> Seq<char> {
    match e {
        ManifestIssue::EmptyId => "manifest id must not be empty"@,
        ManifestIssue::NonCanonicalId(v) => "manifest id must be canonical (no surrounding whitespace): "@
            + v,
        ManifestIssue::InvalidId(v) => "manifest id is invalid: "@ + v,
        ManifestIssue::EmptyVersion => "manifest version must not be empty"@,
        ManifestIssue::InvalidVersion(v) => "manifest version is invalid: "@ + v
            + " (expected major.minor.patch)"@,
        ManifestIssue::MissingCapabilities => "manifest capabilities must not be empty"@,
        ManifestIssue::EmptyCapability => "manifest contains empty capability value"@,
        ManifestIssue::NonCanonicalCapability(v) => "manifest capability must be canonical (no surrounding whitespace): "@
            + v,
        ManifestIssue::UnsupportedCapability(v) => "manifest capability is unsupported: "@ + v,
        ManifestIssue::DuplicateCapability(v) => "manifest capability is duplicated: "@ + v,
        ManifestIssue::EmptyRuntimeCapability => "manifest contains empty runtime capability value"@,
        ManifestIssue::NonCanonicalRuntimeCapability(v) => "manifest runtime capability must be canonical (no surrounding whitespace): "@
            + v,
        ManifestIssue::UnsupportedRuntimeCapability(v) => "manifest runtime capability is unsupported: "@
            + v,
        ManifestIssue::DuplicateRuntimeCapability(v) => "manifest runtime capability is duplicated: "@
            + v,
        ManifestIssue::MissingEntrypoint(name) => "manifest missing required entrypoint: "@ + name,
    }
}

impl ManifestValidationError {
    /// The message of this error.
    pub fn message(&self) -> (r: String)
        ensures
            r@ == manifest_error_text(self@),
    {
        match self {
            ManifestValidationError::EmptyId => "manifest id must not be empty".to_owned(),
            ManifestValidationError::NonCanonicalId(v) => join2(
                "manifest id must be canonical (no surrounding whitespace): ",
                v.as_str(),
            ),
            ManifestValidationError::InvalidId(v) => join2("manifest id is invalid: ", v.as_str()),
            ManifestValidationError::EmptyVersion => "manifest version must not be empty".to_owned(),
            ManifestValidationError::InvalidVersion(v) => join3(
                "manifest version is invalid: ",
                v.as_str(),
                " (expected major.minor.patch)",
            ),
            ManifestValidationError::MissingCapabilities => "manifest capabilities must not be empty".to_owned(),
            ManifestValidationError::EmptyCapability => "manifest contains empty capability value".to_owned(),
            ManifestValidationError::NonCanonicalCapability(v) => join2(
                "manifest capability must be canonical (no surrounding whitespace): ",
                v.as_str(),
            ),
            ManifestValidationError::UnsupportedCapability(v) => join2(
                "manifest capability is unsupported: ",
                v.as_str(),
            ),
            ManifestValidationError::DuplicateCapability(v) => join2(
                "manifest capability is duplicated: ",
                v.as_str(),
            ),
            ManifestValidationError::EmptyRuntimeCapability => "manifest contains empty runtime capability value".to_owned(),
            ManifestValidationError::NonCanonicalRuntimeCapability(v) => join2(
                "manifest runtime capability must be canonical (no surrounding whitespace): ",
                v.as_str(),
            ),
            ManifestValidationError::UnsupportedRuntimeCapability(v) => join2(
                "manifest runtime capability is unsupported: ",
                v.as_str(),
            ),
            ManifestValidationError::DuplicateRuntimeCapability(v) => join2(
                "manifest runtime capability is duplicated: ",
                v.as_str(),
            ),
            ManifestValidationError::MissingEntrypoint(name) => join2(
                "manifest missing required entrypoint: ",
                name,
            ),
        }
    }
}

} // verus!
