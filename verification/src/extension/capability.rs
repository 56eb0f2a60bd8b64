//! Runtime capability declarations for extension security gates.

use vstd::prelude::*;
use crate::text::join2;
use crate::outside::same_text;
use crate::text::trim;
use crate::text::blank;
use crate::text::trimmed;

verus! {

/// Runtime capability for extension invocation authorization.
#[derive(Debug, Clone, Copy, PartialEq, Eq, PartialOrd, Ord, Hash, Structural)]
pub enum RuntimeCapability {
    Network,
    File,
    Notification,
    Calendar,
}

/// Manifest string value for network capability.
pub const RUNTIME_CAPABILITY_NETWORK: &'static str = "network";

/// Manifest string value for file capability.
pub const RUNTIME_CAPABILITY_FILE: &'static str = "file";

/// Manifest string value for notification capability.
pub const RUNTIME_CAPABILITY_NOTIFICATION: &'static str = "notification";

/// Manifest string value for calendar capability.
pub const RUNTIME_CAPABILITY_CALENDAR: &'static str = "calendar";

/// The string that declares a capability in a manifest.
pub open spec fn capability_text(capability: RuntimeCapability) -> Seq<char> {
    match capability {
        RuntimeCapability::Network => "network"@,
        RuntimeCapability::File => "file"@,
        RuntimeCapability::Notification => "notification"@,
        RuntimeCapability::Calendar => "calendar"@,
    }
}

/// The user-facing description of a capability.
pub open spec fn description_text(capability: RuntimeCapability) -> Seq<char> {
    match capability {
        RuntimeCapability::Network => "Allow network access for provider sync and remote service calls."@,
        RuntimeCapability::File => "Allow local file read/write access for import/export workflows."@,
        RuntimeCapability::Notification => "Allow posting local notifications and reminder prompts."@,
        RuntimeCapability::Calendar => "Allow reading/writing external calendar provider data."@,
    }
}

/// The capability that `text` declares, if it declares one.
pub open spec fn capability_of(text: Seq<char>) -> Option<RuntimeCapability> {
    if text == capability_text(RuntimeCapability::Network) {
        Some(RuntimeCapability::Network)
    } else if text == capability_text(RuntimeCapability::File) {
        Some(RuntimeCapability::File)
    } else if text == capability_text(RuntimeCapability::Notification) {
        Some(RuntimeCapability::Notification)
    } else if text == capability_text(RuntimeCapability::Calendar) {
        Some(RuntimeCapability::Calendar)
    } else {
        None
    }
}

/// Different capabilities are declared by different strings, so a string
/// declares the capability whose string it is.
pub proof fn lemma_capability_texts_differ(a: RuntimeCapability, b: RuntimeCapability)
    ensures
        capability_text(a) == capability_text(b) ==> a == b,
        capability_of(capability_text(a)) == Some(a),
        capability_text(a).len() > 0,
{
    reveal_strlit("network");
    reveal_strlit("file");
    reveal_strlit("notification");
    reveal_strlit("calendar");
    assert("network"@.len() == 7);
    assert("file"@.len() == 4);
    assert("notification"@.len() == 12);
    assert("calendar"@.len() == 8);
}

impl RuntimeCapability {
    /// Stable string id used in manifest declarations.
    pub fn as_str(self) -> (r: &'static str)
        ensures
            r@ == capability_text(self),
    {
        match self {
            RuntimeCapability::Network => "network",
            RuntimeCapability::File => "file",
            RuntimeCapability::Notification => "notification",
            RuntimeCapability::Calendar => "calendar",
        }
    }

    /// User-facing short description.
    pub fn description(self) -> (r: &'static str)
        ensures
            r@ == description_text(self),
    {
        match self {
            RuntimeCapability::Network => "Allow network access for provider sync and remote service calls.",
            RuntimeCapability::File => "Allow local file read/write access for import/export workflows.",
            RuntimeCapability::Notification => "Allow posting local notifications and reminder prompts.",
            RuntimeCapability::Calendar => "Allow reading/writing external calendar provider data.",
        }
    }
}

/// Returns supported runtime capability declaration strings.
pub fn supported_runtime_capability_strings() -> (r: Vec<&'static str>)
    ensures
        r@.len() == 4,
        r@[0]@ == capability_text(RuntimeCapability::Network),
        r@[1]@ == capability_text(RuntimeCapability::File),
        r@[2]@ == capability_text(RuntimeCapability::Notification),
        r@[3]@ == capability_text(RuntimeCapability::Calendar),
{
    let mut r: Vec<&'static str> = Vec::new();
    r.push("network");
    r.push("file");
    r.push("notification");
    r.push("calendar");
    r
}

/// Runtime capability parse errors.
#[derive(Debug, Clone, PartialEq, Eq)]
pub enum RuntimeCapabilityError {
    EmptyCapability,
    UnsupportedCapability(String),
}

/// A parse error with the offending text as characters.
pub enum CapabilityIssue {
    Empty,
    Unsupported(Seq<char>),
}

impl View for RuntimeCapabilityError {
    type V = CapabilityIssue;

    open spec fn view(&self) -> CapabilityIssue {
        match self {
            RuntimeCapabilityError::EmptyCapability => CapabilityIssue::Empty,
            RuntimeCapabilityError::UnsupportedCapability(text) => CapabilityIssue::Unsupported(text@),
        }
    }
}

/// What parsing `value` gives: the capability that the trimmed text
/// declares; an error where the text is blank or declares none.
pub open spec fn parsed_capability(value: Seq<char>) -> Result<RuntimeCapability, CapabilityIssue> {
    if blank(value) {
        Err(CapabilityIssue::Empty)
    } else {
        match capability_of(trimmed(value)) {
            Some(capability) => Ok(capability),
            None => Err(CapabilityIssue::Unsupported(trimmed(value))),
        }
    }
}

/// Parses one runtime capability from manifest string value.
pub fn parse_runtime_capability(value: &str) -> (r: Result<RuntimeCapability, RuntimeCapabilityError>)
    ensures
        match r {
            Ok(capability) => parsed_capability(value@) == Ok::<RuntimeCapability, CapabilityIssue>(
                capability,
            ),
            Err(e) => parsed_capability(value@) == Err::<RuntimeCapability, CapabilityIssue>(e@),
        },
{
    let normalized = trim(value);
    if normalized.is_empty() {
        return Err(RuntimeCapabilityError::EmptyCapability);
    }
    if same_text(normalized, "network") {
        Ok(RuntimeCapability::Network)
    } else if same_text(normalized, "file") {
        Ok(RuntimeCapability::File)
    } else if same_text(normalized, "notification") {
        Ok(RuntimeCapability::Notification)
    } else if same_text(normalized, "calendar") {
        Ok(RuntimeCapability::Calendar)
    } else {
        Err(RuntimeCapabilityError::UnsupportedCapability(normalized.to_owned()))
    }
}

/// What a parse error says.
pub open spec fn capability_error_text(e: CapabilityIssue) -> Seq<char> {
    match e {
        CapabilityIssue::Empty => "runtime capability value must not be empty"@,
        CapabilityIssue::Unsupported(value) => "runtime capability is unsupported: "@ + value,
    }
}

impl RuntimeCapabilityError {
    /// The message of this error.
    pub fn message(&self) -> (r: String)
        ensures
            r@ == capability_error_text(self@),
    {
        match self {
            RuntimeCapabilityError::EmptyCapability => "runtime capability value must not be empty".to_owned(),
            RuntimeCapabilityError::UnsupportedCapability(value) => join2(
                "runtime capability is unsupported: ",
                value.as_str(),
            ),
        }
    }
}

} // verus!
