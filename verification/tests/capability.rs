use lazynote_core::extension::capability::{
    parse_runtime_capability, supported_runtime_capability_strings, RuntimeCapability,
    RuntimeCapabilityError,
};


#[test]
fn parses_all_supported_runtime_capabilities() {
    assert_eq!(
        parse_runtime_capability("network").expect("network parse"),
        RuntimeCapability::Network
    );
    assert_eq!(
        parse_runtime_capability("file").expect("file parse"),
        RuntimeCapability::File
    );
    assert_eq!(
        parse_runtime_capability("notification").expect("notification parse"),
        RuntimeCapability::Notification
    );
    assert_eq!(
        parse_runtime_capability("calendar").expect("calendar parse"),
        RuntimeCapability::Calendar
    );
}

#[test]
fn capability_rejects_empty_runtime_capability() {
    let err = parse_runtime_capability("   ").expect_err("empty capability must fail");
    assert_eq!(err, RuntimeCapabilityError::EmptyCapability);
}

#[test]
fn capability_rejects_unsupported_runtime_capability() {
    let err =
        parse_runtime_capability("bluetooth").expect_err("unsupported capability must fail");
    assert_eq!(
        err,
        RuntimeCapabilityError::UnsupportedCapability("bluetooth".to_string())
    );
}

#[test]
fn rejects_non_lowercase_runtime_capability_variants() {
    let err =
        parse_runtime_capability("Network").expect_err("capitalized capability must fail");
    assert_eq!(
        err,
        RuntimeCapabilityError::UnsupportedCapability("Network".to_string())
    );

    let err = parse_runtime_capability("NETWORK").expect_err("uppercase capability must fail");
    assert_eq!(
        err,
        RuntimeCapabilityError::UnsupportedCapability("NETWORK".to_string())
    );
}

#[test]
fn exposes_user_facing_descriptions() {
    assert!(RuntimeCapability::Network.description().contains("network"));
    assert!(RuntimeCapability::File.description().contains("file"));
    assert!(RuntimeCapability::Notification
        .description()
        .contains("notification"));
    assert!(RuntimeCapability::Calendar
        .description()
        .contains("calendar"));
}

#[test]
fn returns_supported_runtime_capability_strings() {
    let values = supported_runtime_capability_strings();
    assert!(values.contains(&"network"));
    assert!(values.contains(&"file"));
    assert!(values.contains(&"notification"));
    assert!(values.contains(&"calendar"));
}
