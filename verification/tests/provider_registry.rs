use lazynote_core::sync::provider_registry::{
    is_valid_provider_id, ProviderRegistry, ProviderRegistryError,
};
use lazynote_core::sync::provider_spi::ProviderSpi;
use lazynote_core::sync::provider_types::{ProviderErrorEnvelope, ProviderResult, SyncStage};

#[derive(Debug, Clone, Copy, PartialEq, Eq)]
enum ProviderHealth {
    Healthy,
}

#[derive(Debug, Clone, Copy, PartialEq, Eq)]
enum ProviderAuthState {
    Authenticated,
}

struct ProviderStatus {
    provider_id: String,
    health: ProviderHealth,
    auth_state: ProviderAuthState,
    last_sync_at_ms: Option<i64>,
}

struct ProviderAuthRequest {
    interactive: bool,
    scopes: Vec<String>,
}

struct ProviderAuthResult {
    state: ProviderAuthState,
    granted: bool,
    expires_at_ms: Option<i64>,
}

struct ProviderPullRequest {
    cursor: Option<String>,
    limit: u32,
}

#[derive(Debug)]
struct ProviderPullResult {
    records: Vec<String>,
    next_cursor: Option<String>,
    has_more: bool,
}

struct ProviderPushRequest {
    records: Vec<String>,
}

#[derive(Debug)]
struct ProviderPushResult {
    accepted_count: u32,
    failed_count: u32,
    conflict_candidates: Vec<String>,
}

struct ProviderConflictMapRequest {
    candidates: Vec<String>,
}

#[derive(Debug)]
struct ProviderConflictMapResult {
    decisions: Vec<String>,
}

struct MockProvider {
    provider_id: String,
    refuses: bool,
}

impl MockProvider {
    fn new(provider_id: &str) -> Self {
        Self {
            provider_id: provider_id.to_string(),
            refuses: false,
        }
    }

    fn refusing(provider_id: &str) -> Self {
        Self {
            provider_id: provider_id.to_string(),
            refuses: true,
        }
    }
}

impl ProviderSpi for MockProvider {
    type Status = ProviderStatus;
    type AuthRequest = ProviderAuthRequest;
    type AuthResult = ProviderAuthResult;
    type PullRequest = ProviderPullRequest;
    type PullResult = ProviderPullResult;
    type PushRequest = ProviderPushRequest;
    type PushResult = ProviderPushResult;
    type ConflictMapRequest = ProviderConflictMapRequest;
    type ConflictMapResult = ProviderConflictMapResult;

    fn provider_id(&self) -> &str {
        &self.provider_id
    }

    fn status(&self) -> ProviderStatus {
        ProviderStatus {
            provider_id: self.provider_id.clone(),
            health: ProviderHealth::Healthy,
            auth_state: ProviderAuthState::Authenticated,
            last_sync_at_ms: Some(123),
        }
    }

    fn auth(&self, request: ProviderAuthRequest) -> ProviderResult<ProviderAuthResult> {
        Ok(ProviderAuthResult {
            state: ProviderAuthState::Authenticated,
            granted: !request.interactive && !request.scopes.is_empty(),
            expires_at_ms: Some(999),
        })
    }

    fn pull(&self, request: ProviderPullRequest) -> ProviderResult<ProviderPullResult> {
        if self.refuses {
            return Err(ProviderErrorEnvelope::new(
                self.provider_id.as_str(),
                SyncStage::Pull,
                "rate_limited",
                "Try again later.",
                true,
            ));
        }
        Ok(ProviderPullResult {
            records: vec![],
            next_cursor: Some("next".to_string()),
            has_more: request.cursor.is_some() && request.limit == 0,
        })
    }

    fn push(&self, request: ProviderPushRequest) -> ProviderResult<ProviderPushResult> {
        Ok(ProviderPushResult {
            accepted_count: request.records.len() as u32,
            failed_count: 0,
            conflict_candidates: vec![],
        })
    }

    fn conflict_map(
        &self,
        request: ProviderConflictMapRequest,
    ) -> ProviderResult<ProviderConflictMapResult> {
        Ok(ProviderConflictMapResult {
            decisions: request.candidates,
        })
    }
}

#[test]
fn registers_and_selects_provider() {
    let mut registry = ProviderRegistry::new();
    registry
        .register(MockProvider::new("google_calendar"))
        .expect("provider should register");
    assert_eq!(registry.len(), 1);
    assert!(registry.active_provider_id().is_none());

    registry
        .select_active("google_calendar")
        .expect("provider should be selectable");
    assert_eq!(registry.active_provider_id(), Some("google_calendar"));
}

#[test]
fn rejects_invalid_or_duplicate_provider_id() {
    let mut registry = ProviderRegistry::new();
    let invalid = registry.register(MockProvider::new("Google Calendar"));
    assert!(matches!(
        invalid,
        Err(ProviderRegistryError::InvalidProviderId(_))
    ));
    let blank = registry.register(MockProvider::new("   "));
    assert!(matches!(
        blank,
        Err(ProviderRegistryError::InvalidProviderId(_))
    ));

    registry
        .register(MockProvider::new("google_calendar"))
        .expect("first provider should register");
    let duplicate = registry.register(MockProvider::new("google_calendar"));
    assert!(matches!(
        duplicate,
        Err(ProviderRegistryError::DuplicateProviderId(_))
    ));
}

#[test]
fn returns_provider_not_selected_error_for_active_calls() {
    let registry: ProviderRegistry<MockProvider> = ProviderRegistry::new();
    let err = registry
        .pull_active(ProviderPullRequest {
            cursor: None,
            limit: 10,
        })
        .expect_err("without active provider pull should fail");
    assert_eq!(err.code, "provider_not_selected");
}

#[test]
fn select_active_accepts_trimmed_input_and_normalizes_storage() {
    let mut registry = ProviderRegistry::new();
    registry
        .register(MockProvider::new("google_calendar"))
        .expect("provider should register");

    registry
        .select_active("  google_calendar  ")
        .expect("trimmed provider id should be selectable");
    assert_eq!(registry.active_provider_id(), Some("google_calendar"));
}

#[test]
fn can_reselect_active_provider() {
    let mut registry = ProviderRegistry::new();
    registry
        .register(MockProvider::new("google_calendar"))
        .expect("google provider should register");
    registry
        .register(MockProvider::new("microsoft_todo"))
        .expect("microsoft provider should register");

    registry
        .select_active("google_calendar")
        .expect("google provider should select");
    assert_eq!(registry.active_provider_id(), Some("google_calendar"));

    registry
        .select_active("microsoft_todo")
        .expect("microsoft provider should select");
    assert_eq!(registry.active_provider_id(), Some("microsoft_todo"));
}

#[test]
fn active_operations_fail_after_clear_active() {
    let mut registry = ProviderRegistry::new();
    registry
        .register(MockProvider::new("google_calendar"))
        .expect("provider should register");
    registry
        .select_active("google_calendar")
        .expect("provider should select");

    registry.clear_active();
    let err = registry
        .pull_active(ProviderPullRequest {
            cursor: None,
            limit: 10,
        })
        .expect_err("active operations should fail after clear_active");
    assert_eq!(err.code, "provider_not_selected");
}

#[test]
fn get_trims_input_and_returns_none_for_blank_value() {
    let mut registry = ProviderRegistry::new();
    registry
        .register(MockProvider::new("google_calendar"))
        .expect("provider should register");

    assert!(registry.get("  google_calendar  ").is_some());
    assert!(registry.get("   ").is_none());
}

#[test]
fn delegates_active_operations_to_selected_provider() {
    let mut registry = ProviderRegistry::new();
    registry
        .register(MockProvider::new("google_calendar"))
        .expect("provider should register");
    registry
        .select_active("google_calendar")
        .expect("provider should select");

    let auth = registry
        .auth_active(ProviderAuthRequest {
            interactive: false,
            scopes: vec!["calendar.read".to_string()],
        })
        .expect("auth should succeed");
    assert!(auth.granted);

    let pull = registry
        .pull_active(ProviderPullRequest {
            cursor: None,
            limit: 100,
        })
        .expect("pull should succeed");
    assert_eq!(pull.next_cursor.as_deref(), Some("next"));
}

#[test]
fn returns_active_status() {
    let mut registry = ProviderRegistry::new();
    registry
        .register(MockProvider::new("google_calendar"))
        .expect("provider should register");
    registry
        .select_active("google_calendar")
        .expect("provider should select");

    let status = registry.active_status().expect("active status");
    assert_eq!(status.provider_id, "google_calendar");
    assert_eq!(status.health, ProviderHealth::Healthy);
    assert_eq!(status.auth_state, ProviderAuthState::Authenticated);
}

#[test]
fn provider_ids_come_out_in_order_whatever_the_order_of_registration() {
    let mut registry = ProviderRegistry::new();
    for id in ["microsoft_todo", "caldav", "google_calendar", "caldav-2"] {
        registry
            .register(MockProvider::new(id))
            .expect("provider should register");
    }
    assert_eq!(
        registry.provider_ids(),
        vec!["caldav", "caldav-2", "google_calendar", "microsoft_todo"]
    );
    assert_eq!(registry.len(), 4);
    assert!(!registry.is_empty());
    assert_eq!(
        registry.get("caldav-2").map(|p| p.provider_id.as_str()),
        Some("caldav-2")
    );
    assert_eq!(
        registry.provider_status(" caldav ").map(|s| s.provider_id),
        Some("caldav".to_string())
    );
    assert!(registry.provider_status("dropbox").is_none());
}

#[test]
fn a_provider_is_registered_under_its_trimmed_id() {
    let mut registry = ProviderRegistry::new();
    registry
        .register(MockProvider::new("  caldav \n"))
        .expect("provider should register");
    assert_eq!(registry.provider_ids(), vec!["caldav"]);
    let again = registry.register_as("caldav", MockProvider::new("other"));
    assert_eq!(
        again,
        Err(ProviderRegistryError::DuplicateProviderId(
            "caldav".to_string()
        ))
    );
    assert_eq!(
        again.unwrap_err().message(),
        "provider id already registered: caldav"
    );
}

#[test]
fn provider_id_charset_is_lowercase_digits_underscore_and_hyphen() {
    assert!(is_valid_provider_id("a"));
    assert!(is_valid_provider_id("az09_-"));
    assert!(!is_valid_provider_id(""));
    assert!(!is_valid_provider_id("A"));
    assert!(!is_valid_provider_id("a b"));
    assert!(!is_valid_provider_id("a.b"));
    assert!(!is_valid_provider_id("caf\u{e9}"));
    assert!(!is_valid_provider_id("{"));
    assert!(!is_valid_provider_id("`"));
    assert!(!is_valid_provider_id("/"));
    assert!(!is_valid_provider_id(":"));
}

#[test]
fn selecting_an_unknown_provider_keeps_the_selection() {
    let mut registry = ProviderRegistry::new();
    registry
        .register(MockProvider::new("caldav"))
        .expect("provider should register");
    registry.select_active("caldav").expect("selectable");
    let err = registry.select_active("  dropbox ").unwrap_err();
    assert_eq!(
        err,
        ProviderRegistryError::ProviderNotFound("dropbox".to_string())
    );
    assert_eq!(err.message(), "provider not found: dropbox");
    assert_eq!(registry.active_provider_id(), Some("caldav"));
    assert_eq!(
        registry.active_provider().map(|p| p.provider_id.as_str()),
        Some("caldav")
    );
}

#[test]
fn the_answer_without_a_selection_names_the_registry_and_the_stage() {
    let registry: ProviderRegistry<MockProvider> = ProviderRegistry::default();
    let err = registry
        .push_active(ProviderPushRequest { records: vec![] })
        .unwrap_err();
    assert_eq!(
        err,
        ProviderErrorEnvelope {
            provider_id: "registry".to_string(),
            stage: SyncStage::Push,
            code: "provider_not_selected".to_string(),
            message: "No active provider selected.".to_string(),
            retryable: false,
        }
    );
    let err = registry
        .conflict_map_active(ProviderConflictMapRequest { candidates: vec![] })
        .unwrap_err();
    assert_eq!(err.stage, SyncStage::ConflictMap);
    let err = registry
        .auth_active(ProviderAuthRequest {
            interactive: true,
            scopes: vec![],
        })
        .err()
        .expect("no provider is selected");
    assert_eq!(err.stage, SyncStage::Auth);
    assert!(registry.active_status().is_none());
}

#[test]
fn what_the_selected_provider_answers_is_handed_on() {
    let mut registry = ProviderRegistry::new();
    registry
        .register(MockProvider::refusing("caldav"))
        .expect("provider should register");
    registry.select_active("caldav").expect("selectable");
    let err = registry
        .pull_active(ProviderPullRequest {
            cursor: None,
            limit: 1,
        })
        .unwrap_err();
    assert_eq!(err.provider_id, "caldav");
    assert_eq!(err.code, "rate_limited");
    assert!(err.retryable);
    let pushed = registry
        .push_active(ProviderPushRequest {
            records: vec!["a".to_string(), "b".to_string()],
        })
        .expect("push should succeed");
    assert_eq!(pushed.accepted_count, 2);
    assert_eq!(pushed.failed_count, 0);
    assert!(pushed.conflict_candidates.is_empty());
    let mapped = registry
        .conflict_map_active(ProviderConflictMapRequest {
            candidates: vec!["x".to_string()],
        })
        .expect("conflict map should succeed");
    assert_eq!(mapped.decisions, vec!["x"]);
    let auth = registry
        .auth_active(ProviderAuthRequest {
            interactive: false,
            scopes: vec!["calendar.read".to_string()],
        })
        .ok()
        .expect("auth should succeed");
    assert_eq!(auth.state, ProviderAuthState::Authenticated);
    assert_eq!(auth.expires_at_ms, Some(999));
    let status = registry.active_status().expect("active status");
    assert_eq!(status.last_sync_at_ms, Some(123));
    let pulled = MockProvider::new("x")
        .pull(ProviderPullRequest {
            cursor: Some("c".to_string()),
            limit: 0,
        })
        .expect("pull should succeed");
    assert!(pulled.has_more);
    assert!(pulled.records.is_empty());
}
