use lazynote_core::{core_version, ping};

#[test]
fn lib_ping_returns_pong() {
    assert_eq!(ping(), "pong");
}

#[test]
fn lib_version_is_not_empty() {
    assert!(!core_version().is_empty());
}

#[test]
fn version_is_a_semver_triplet() {
    assert_eq!(core_version(), "0.1.0");
    assert!(lazynote_core::extension::manifest::is_semver_triplet(core_version()));
}

#[test]
fn api_ping_returns_pong() {
    assert_eq!(lazynote_core::api::ping(), "pong");
}

#[test]
fn api_version_is_not_empty() {
    assert!(!lazynote_core::api::core_version().is_empty());
}
