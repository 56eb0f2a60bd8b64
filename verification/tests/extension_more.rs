use lazynote_core::extension::capability::RuntimeCapabilityError;
use lazynote_core::extension::kernel::ExtensionInvocation;
use lazynote_core::extension::manifest::{is_semver_triplet, is_valid_extension_id};
use lazynote_core::extension::kernel::ExtensionAdapter as _;
use lazynote_core::{
    parse_runtime_capability, supported_capabilities, ExtensionKernelError, ExtensionManifest,
    ExtensionRegistry, FirstPartyExtensionAdapter, ManifestEntrypoints, ManifestValidationError,
    RuntimeCapability,
};

fn manifest(id: &str, capabilities: &[&str], runtime: &[&str]) -> ExtensionManifest {
    let declared = |name: &str| capabilities.contains(&name).then(|| format!("{id}.{name}"));
    ExtensionManifest {
        id: id.to_string(),
        version: "1.2.3".to_string(),
        capabilities: capabilities.iter().map(|c| c.to_string()).collect(),
        runtime_capabilities: runtime.iter().map(|c| c.to_string()).collect(),
        entrypoints: ManifestEntrypoints {
            init: Some("init".to_string()),
            dispose: Some("dispose".to_string()),
            health: Some("health".to_string()),
            command_action: declared("command"),
            input_parser: declared("parser"),
            provider_spi: declared("provider"),
            ui_slot: declared("ui_slot"),
        },
    }
}

#[test]
fn extension_ids() {
    for good in ["a", "9", "builtin.notes.shell", "a-b_c.d", "x1.y2"] {
        assert!(is_valid_extension_id(good), "{good}");
    }
    for bad in ["", ".a", "a.", "a..b", "a._b", "A", "a b", "a/b", "-a", "é", "a-"] {
        assert!(!is_valid_extension_id(bad), "{bad}");
    }
}

#[test]
fn versions() {
    for good in ["0.1.0", "10.20.30", "1.2.3", "007.0.0"] {
        assert!(is_semver_triplet(good), "{good}");
    }
    for bad in [
        "", "1", "1.2", "1.2.3.4", ".1.2", "1..2", "1.2.", "v1.2.3", "1.2.x", "1.2.3 ", "..", "1.-2.3",
    ] {
        assert!(!is_semver_triplet(bad), "{bad}");
    }
}

#[test]
fn validation_reports_the_first_problem_in_reading_order() {
    let mut m = manifest("ok.id", &["command"], &["network"]);
    assert_eq!(m.validate(), Ok(()));
    m.id = "   ".to_string();
    m.version = "x".to_string();
    assert_eq!(m.validate(), Err(ManifestValidationError::EmptyId));
    m.id = "ok.id".to_string();
    m.version = " ".to_string();
    m.capabilities.clear();
    assert_eq!(m.validate(), Err(ManifestValidationError::EmptyVersion));
    m.version = " 1.2.3 ".to_string();
    assert_eq!(m.validate(), Err(ManifestValidationError::MissingCapabilities));
    m.capabilities = vec!["command".to_string(), " ".to_string(), "nope".to_string()];
    assert_eq!(m.validate(), Err(ManifestValidationError::EmptyCapability));
    m.capabilities = vec!["parser".to_string()];
    m.runtime_capabilities = vec!["bluetooth".to_string()];
    assert_eq!(
        m.validate(),
        Err(ManifestValidationError::MissingEntrypoint("input_parser"))
    );
    m.entrypoints.input_parser = Some("  ".to_string());
    assert_eq!(
        m.validate(),
        Err(ManifestValidationError::MissingEntrypoint("input_parser"))
    );
    m.entrypoints.input_parser = Some("p".to_string());
    assert_eq!(
        m.validate(),
        Err(ManifestValidationError::UnsupportedRuntimeCapability(
            "bluetooth".to_string()
        ))
    );
    m.runtime_capabilities = vec![];
    m.entrypoints.health = None;
    m.entrypoints.dispose = Some(" ".to_string());
    assert_eq!(
        m.validate(),
        Err(ManifestValidationError::MissingEntrypoint("dispose"))
    );
    m.entrypoints.dispose = Some("d".to_string());
    assert_eq!(
        m.validate(),
        Err(ManifestValidationError::MissingEntrypoint("health"))
    );
    for (capability, entrypoint) in [
        ("command", "command_action"),
        ("parser", "input_parser"),
        ("provider", "provider_spi"),
        ("ui_slot", "ui_slot"),
    ] {
        let mut m = manifest("ok.id", &[capability], &[]);
        assert_eq!(m.validate(), Ok(()));
        m.entrypoints.command_action = None;
        m.entrypoints.input_parser = None;
        m.entrypoints.provider_spi = None;
        m.entrypoints.ui_slot = None;
        assert_eq!(
            m.validate(),
            Err(ManifestValidationError::MissingEntrypoint(entrypoint))
        );
    }
}

#[test]
fn declared_runtime_capabilities_come_in_a_fixed_order() {
    let m = manifest("ok.id", &["command"], &["calendar", "network", "file"]);
    assert_eq!(
        m.declared_runtime_capabilities(),
        Ok(vec![
            RuntimeCapability::Network,
            RuntimeCapability::File,
            RuntimeCapability::Calendar
        ])
    );
    let none = manifest("ok.id", &["command"], &[]);
    assert_eq!(none.declared_runtime_capabilities(), Ok(vec![]));
    let twice = manifest("ok.id", &["command"], &["file", "calendar", "file"]);
    assert_eq!(
        twice.declared_runtime_capabilities(),
        Err(ManifestValidationError::DuplicateRuntimeCapability(
            "file".to_string()
        ))
    );
}

#[test]
fn registry_lists_by_capability_in_the_order_of_ids() {
    let mut registry = ExtensionRegistry::new();
    assert!(registry.is_empty());
    for (id, capabilities) in [
        ("m.ext", vec!["command", "parser"]),
        ("a.ext", vec!["command"]),
        ("z.ext", vec!["parser"]),
        ("b.ext", vec!["command", "ui_slot"]),
    ] {
        let adapter = FirstPartyExtensionAdapter::new(manifest(id, &capabilities, &["file"]));
        registry.register_adapter(&adapter).unwrap();
    }
    assert_eq!(registry.len(), 4);
    assert!(!registry.is_empty());
    let ids = |capability: &str| -> Vec<String> {
        registry
            .list_by_capability(capability)
            .iter()
            .map(|entry| entry.manifest.id.clone())
            .collect()
    };
    assert_eq!(ids("command"), vec!["a.ext", "b.ext", "m.ext"]);
    assert_eq!(ids("parser"), vec!["m.ext", "z.ext"]);
    assert_eq!(ids("ui_slot"), vec!["b.ext"]);
    assert!(ids("provider").is_empty());
    assert!(ids(" command").is_empty());
    let entry = registry.get("b.ext").unwrap();
    assert_eq!(entry.runtime_capabilities, vec![RuntimeCapability::File]);
    assert_eq!(entry.manifest.version, "1.2.3");
    assert!(registry.get("b.ext ").is_none());
    assert!(registry.get("c.ext").is_none());
}

#[test]
fn an_invocation_names_the_first_capability_that_is_missing() {
    let mut registry = ExtensionRegistry::new();
    let adapter = FirstPartyExtensionAdapter::new(manifest("sync.ext", &["provider"], &["calendar"]));
    registry.register_adapter(&adapter).unwrap();
    assert_eq!(
        registry.assert_invocation_allowed("sync.ext", ExtensionInvocation::ProviderSync),
        Err(ExtensionKernelError::CapabilityDenied {
            extension_id: "sync.ext".to_string(),
            capability: RuntimeCapability::Network
        })
    );
    assert_eq!(
        registry.assert_invocation_allowed("none.ext", ExtensionInvocation::ProviderSync),
        Err(ExtensionKernelError::ExtensionNotFound("none.ext".to_string()))
    );
    assert_eq!(
        registry.assert_invocation_allowed("sync.ext", ExtensionInvocation::CalendarAccess),
        Ok(())
    );
    assert_eq!(
        ExtensionInvocation::ProviderSync.required_capabilities(),
        vec![RuntimeCapability::Network, RuntimeCapability::Calendar]
    );
    assert_eq!(
        ExtensionInvocation::FileAccess.required_capabilities(),
        vec![RuntimeCapability::File]
    );
}

#[test]
fn error_messages() {
    assert_eq!(
        ExtensionKernelError::CapabilityDenied {
            extension_id: "a.b".to_string(),
            capability: RuntimeCapability::Notification
        }
        .message(),
        "extension capability denied: extension `a.b` missing `notification`"
    );
    assert_eq!(
        ExtensionKernelError::InvalidManifest(ManifestValidationError::InvalidVersion(
            "v1".to_string()
        ))
        .message(),
        "invalid extension manifest: manifest version is invalid: v1 (expected major.minor.patch)"
    );
    assert_eq!(
        ExtensionKernelError::DuplicateExtensionId("x".to_string()).message(),
        "extension id already registered: x"
    );
    assert_eq!(
        ManifestValidationError::MissingEntrypoint("init").message(),
        "manifest missing required entrypoint: init"
    );
    assert_eq!(
        ManifestValidationError::NonCanonicalId(" a ".to_string()).message(),
        "manifest id must be canonical (no surrounding whitespace):  a "
    );
    assert_eq!(
        RuntimeCapabilityError::EmptyCapability.message(),
        "runtime capability value must not be empty"
    );
    assert_eq!(
        parse_runtime_capability(" wifi ").unwrap_err().message(),
        "runtime capability is unsupported: wifi"
    );
}

#[test]
fn capabilities_are_parsed_trimmed() {
    assert_eq!(
        parse_runtime_capability("  calendar\t"),
        Ok(RuntimeCapability::Calendar)
    );
    for capability in [
        RuntimeCapability::Network,
        RuntimeCapability::File,
        RuntimeCapability::Notification,
        RuntimeCapability::Calendar,
    ] {
        assert_eq!(parse_runtime_capability(capability.as_str()), Ok(capability));
    }
    assert_eq!(
        supported_capabilities(),
        vec!["command", "parser", "provider", "ui_slot"]
    );
}

#[test]
fn the_baseline_registers_once() {
    let mut registry = ExtensionRegistry::new();
    assert_eq!(registry.register_first_party_baseline(), Ok(()));
    assert_eq!(
        registry.register_first_party_baseline(),
        Err(ExtensionKernelError::DuplicateExtensionId(
            "builtin.notes.shell".to_string()
        ))
    );
    assert_eq!(registry.len(), 1);
    let entry = registry.get("builtin.notes.shell").unwrap();
    assert!(entry.runtime_capabilities.is_empty());
    assert_eq!(
        FirstPartyExtensionAdapter::notes_shell_baseline()
            .manifest()
            .validate(),
        Ok(())
    );
}
