use lazynote_core::extension::manifest::{
    ExtensionManifest, ManifestEntrypoints, ManifestValidationError, CAPABILITY_COMMAND,
    CAPABILITY_UI_SLOT,
};


fn valid_manifest() -> ExtensionManifest {
    ExtensionManifest {
        id: "builtin.notes.shell".to_string(),
        version: "0.1.0".to_string(),
        capabilities: vec![
            CAPABILITY_COMMAND.to_string(),
            CAPABILITY_UI_SLOT.to_string(),
        ],
        runtime_capabilities: vec!["network".to_string()],
        entrypoints: ManifestEntrypoints {
            init: Some("builtin.init".to_string()),
            dispose: Some("builtin.dispose".to_string()),
            health: Some("builtin.health".to_string()),
            command_action: Some("builtin.command.register".to_string()),
            input_parser: None,
            provider_spi: None,
            ui_slot: Some("builtin.ui.notes.sidebar".to_string()),
        },
    }
}

#[test]
fn validates_baseline_manifest() {
    let manifest = valid_manifest();
    assert!(manifest.validate().is_ok());
}

#[test]
fn rejects_missing_capabilities() {
    let mut manifest = valid_manifest();
    manifest.capabilities.clear();
    let err = manifest.validate().unwrap_err();
    assert_eq!(err, ManifestValidationError::MissingCapabilities);
}

#[test]
fn rejects_duplicate_capabilities() {
    let mut manifest = valid_manifest();
    manifest.capabilities.push(CAPABILITY_COMMAND.to_string());
    let err = manifest.validate().unwrap_err();
    assert_eq!(
        err,
        ManifestValidationError::DuplicateCapability(CAPABILITY_COMMAND.to_string())
    );
}

#[test]
fn rejects_unsupported_capabilities() {
    let mut manifest = valid_manifest();
    manifest.capabilities.push("runtime_loader".to_string());
    let err = manifest.validate().unwrap_err();
    assert_eq!(
        err,
        ManifestValidationError::UnsupportedCapability("runtime_loader".to_string())
    );
}

#[test]
fn rejects_missing_required_entrypoint_for_capability() {
    let mut manifest = valid_manifest();
    manifest.entrypoints.command_action = None;
    let err = manifest.validate().unwrap_err();
    assert_eq!(
        err,
        ManifestValidationError::MissingEntrypoint("command_action")
    );
}

#[test]
fn rejects_missing_lifecycle_entrypoint() {
    let mut manifest = valid_manifest();
    manifest.entrypoints.init = None;
    let err = manifest.validate().unwrap_err();
    assert_eq!(err, ManifestValidationError::MissingEntrypoint("init"));
}

#[test]
fn rejects_invalid_id_format() {
    let mut manifest = valid_manifest();
    manifest.id = "Builtin Notes".to_string();
    let err = manifest.validate().unwrap_err();
    assert!(matches!(err, ManifestValidationError::InvalidId(_)));
}

#[test]
fn rejects_non_canonical_id_with_surrounding_whitespace() {
    let mut manifest = valid_manifest();
    manifest.id = " builtin.notes.shell ".to_string();
    let err = manifest.validate().unwrap_err();
    assert_eq!(
        err,
        ManifestValidationError::NonCanonicalId(" builtin.notes.shell ".to_string())
    );
}

#[test]
fn rejects_invalid_version_format() {
    let mut manifest = valid_manifest();
    manifest.version = "v1".to_string();
    let err = manifest.validate().unwrap_err();
    assert!(matches!(err, ManifestValidationError::InvalidVersion(_)));
}

#[test]
fn rejects_non_canonical_capability_with_surrounding_whitespace() {
    let mut manifest = valid_manifest();
    manifest.capabilities = vec![" command ".to_string(), CAPABILITY_UI_SLOT.to_string()];
    let err = manifest.validate().unwrap_err();
    assert_eq!(
        err,
        ManifestValidationError::NonCanonicalCapability(" command ".to_string())
    );
}

#[test]
fn rejects_duplicate_runtime_capability() {
    let mut manifest = valid_manifest();
    manifest.runtime_capabilities.push("network".to_string());
    let err = manifest.validate().unwrap_err();
    assert_eq!(
        err,
        ManifestValidationError::DuplicateRuntimeCapability("network".to_string())
    );
}

#[test]
fn manifest_rejects_unsupported_runtime_capability() {
    let mut manifest = valid_manifest();
    manifest.runtime_capabilities.push("bluetooth".to_string());
    let err = manifest.validate().unwrap_err();
    assert_eq!(
        err,
        ManifestValidationError::UnsupportedRuntimeCapability("bluetooth".to_string())
    );
}

#[test]
fn manifest_rejects_empty_runtime_capability() {
    let mut manifest = valid_manifest();
    manifest.runtime_capabilities = vec!["   ".to_string()];
    let err = manifest.validate().unwrap_err();
    assert_eq!(err, ManifestValidationError::EmptyRuntimeCapability);
}

#[test]
fn rejects_runtime_capability_list_when_any_item_is_blank() {
    let mut manifest = valid_manifest();
    manifest.runtime_capabilities = vec!["network".to_string(), "   ".to_string()];
    let err = manifest.validate().unwrap_err();
    assert_eq!(err, ManifestValidationError::EmptyRuntimeCapability);
}

#[test]
fn rejects_non_canonical_runtime_capability_with_surrounding_whitespace() {
    let mut manifest = valid_manifest();
    manifest.runtime_capabilities = vec![" network ".to_string()];
    let err = manifest.validate().unwrap_err();
    assert_eq!(
        err,
        ManifestValidationError::NonCanonicalRuntimeCapability(" network ".to_string())
    );
}
