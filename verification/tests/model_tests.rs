use link_helm::config::{
    ConfigError, Enforcement, FallbackScope, OneOrMany, RouteRule, RuleMatcher, RuleTarget,
    TargetMode, UnavailableAction,
};
use link_helm::domain::{Domain, DomainError, DomainPattern};
use link_helm::guard::RouterGuard;
use link_helm::ids::{AppId, BrowserId, ProfileId, RuleId};
use link_helm::platform_api::{ExecutionError, ExecutionReceipt, PlatformError};
use link_helm::routing::{DecisionReason, FinalAction, RouteDecision};
use link_helm::config_store::{ConfigStore, ConfigStoreError};

fn rule(mode: TargetMode, enforcement: Enforcement) -> RouteRule {
    RouteRule {
        id: RuleId::new("r1"),
        name: None,
        enabled: true,
        order: 0,
        matcher: RuleMatcher { source_app: None, domain: None },
        target: RuleTarget {
            mode,
            browser_id: Some(BrowserId::new("browser")),
            profile_id: Some(ProfileId::new("profile")),
        },
        enforcement,
        fallback_scope: FallbackScope::NoFallback,
        unavailable_action: UnavailableAction::Ask,
    }
}

#[test]
fn ask_must_not_carry_targeting_policy() {
    let mut r = rule(TargetMode::Ask, Enforcement::Prefer);
    r.enforcement = Enforcement::Force;
    assert!(r.validate().is_err());
}

#[test]
fn force_cannot_fallback_to_other_identity() {
    let mut r = rule(TargetMode::SpecifiedProfile, Enforcement::Force);
    r.fallback_scope = FallbackScope::SameBrowser;
    assert!(matches!(r.validate(), Err(ConfigError::ForceCannotFallback(_))));
}

#[test]
fn specified_profile_requires_both_ids() {
    let mut r = rule(TargetMode::SpecifiedProfile, Enforcement::Prefer);
    r.target.profile_id = None;
    assert!(matches!(r.validate(), Err(ConfigError::SpecifiedProfileRequiresIdentity(_))));
}

#[test]
fn explicitly_blank_rule_name_is_rejected() {
    let mut named = rule(TargetMode::Ask, Enforcement::Prefer);
    named.name = Some("   ".to_string());
    assert!(matches!(named.validate(), Err(ConfigError::BlankName(_))));
}

#[test]
fn legacy_rule_without_name_remains_valid() {
    let mut legacy = rule(TargetMode::Ask, Enforcement::Prefer);
    legacy.id = RuleId::new("legacy-rule");
    legacy.target.browser_id = None;
    legacy.target.profile_id = None;
    assert_eq!(legacy.name, None);
    assert!(legacy.validate().is_ok());
}

#[test]
fn config_error_messages_name_the_rule() {
    let mut r = rule(TargetMode::BrowserDefault, Enforcement::Prefer);
    r.target.browser_id = None;
    let error = r.validate().unwrap_err();
    assert_eq!(error, ConfigError::BrowserDefaultRequiresBrowser("r1".to_string()));
    assert_eq!(error.message(), "rule r1: BrowserDefault requires browser_id");
    let mut a = rule(TargetMode::ActiveInBrowser, Enforcement::Prefer);
    a.target.browser_id = None;
    assert_eq!(a.validate().unwrap_err().message(), "rule r1: ActiveInBrowser requires browser_id");
}

#[test]
fn one_or_many_lists_its_values() {
    let one: OneOrMany<AppId> = AppId::new("com.apple.mail").into();
    assert!(!one.is_empty());
    assert_eq!(one.iter().len(), 1);
    let none: OneOrMany<AppId> = OneOrMany::Many(Vec::new());
    assert!(none.is_empty());
    let two = OneOrMany::Many(vec![AppId::new("a"), AppId::new("b")]);
    let items: Vec<&str> = two.iter().iter().map(|a| a.as_str()).collect();
    assert_eq!(items, vec!["a", "b"]);
}

#[test]
fn normalizes_case_and_idna() {
    assert_eq!(Domain::normalize("EXAMPLE.COM").unwrap().as_str(), "example.com");
    assert_eq!(Domain::normalize("bücher.example").unwrap().as_str(), "xn--bcher-kva.example");
}

#[test]
fn rejects_empty_domain() {
    assert!(matches!(Domain::normalize(""), Err(DomainError::Empty)));
}

#[test]
fn normalizing_drops_trailing_dots_and_blanks() {
    assert_eq!(Domain::normalize("  Example.com.  ").unwrap().as_str(), "example.com");
    assert!(matches!(Domain::normalize("   "), Err(DomainError::Empty)));
    assert!(matches!(Domain::normalize("..."), Err(DomainError::Empty)));
}

#[test]
fn wildcard_matches_subdomains_but_not_root() {
    let pattern = DomainPattern::parse("*.example.com").unwrap();
    assert!(pattern.matches("a.example.com"));
    assert!(pattern.matches("a.b.example.com"));
    assert!(!pattern.matches("example.com"));
    assert!(!pattern.matches("notexample.com"));
}

#[test]
fn exact_matches_only_same_domain_case_insensitively() {
    let pattern = DomainPattern::parse("Example.COM").unwrap();
    assert!(pattern.matches("example.com"));
    assert!(!pattern.matches("a.example.com"));
}

#[test]
fn patterns_are_written_back_as_plain_text() {
    assert_eq!(DomainPattern::parse("example.com").unwrap().as_str(), "example.com");
    assert_eq!(DomainPattern::parse("*.Example.COM").unwrap().as_str(), "*.example.com");
}

#[test]
fn pattern_text_parses_back_to_the_pattern() {
    for text in ["*.Example.COM", "example.com", "*.a.b.example.org"] {
        let pattern = DomainPattern::parse(text).unwrap();
        assert!(DomainPattern::parse(&pattern.as_str()).unwrap() == pattern);
    }
}

#[test]
fn ids_are_transparent_strings() {
    let id = BrowserId::new("com.example.Browser");
    assert_eq!(id.as_str(), "com.example.Browser");
    assert_eq!(id.to_string(), "com.example.Browser");
    assert_eq!(id.into_inner(), "com.example.Browser");
}

#[test]
fn route_decision_asks_with_its_reason() {
    let decision = RouteDecision::ask(DecisionReason::NoMatchingRule);
    assert_eq!(decision.final_action, FinalAction::Ask);
    assert_eq!(decision.reason, DecisionReason::NoMatchingRule);
    assert!(decision.candidates.is_empty());
    assert!(decision.primary().is_none());
    let failed = RouteDecision::fail(DecisionReason::InvalidUrl);
    assert_eq!(failed.final_action, FinalAction::Fail);
}

#[test]
fn duplicate_apple_event_delivery_is_rejected() {
    let mut guard = RouterGuard::new();
    guard.mark_seen("apple-event-1");
    assert!(guard.is_duplicate("apple-event-1"));
    assert!(!guard.is_duplicate("apple-event-2"));
}

#[test]
fn in_flight_url_guards_against_loop() {
    let mut guard = RouterGuard::new();
    assert!(guard.begin_route("https://example.com/path"));
    assert!(guard.is_in_flight("https://example.com/path"));
    guard.end_route("https://example.com/path");
    assert!(!guard.is_in_flight("https://example.com/path"));
}

#[test]
fn a_second_begin_of_the_same_url_is_refused() {
    let mut guard = RouterGuard::new();
    assert!(guard.begin_route("https://example.com"));
    assert!(!guard.begin_route("https://example.com"));
    guard.end_route("https://example.com");
    assert!(guard.begin_route("https://example.com"));
}

#[test]
fn receipts_carry_confirmation_semantics() {
    assert!(ExecutionReceipt::confirmed().confirmed);
    assert!(!ExecutionReceipt::unconfirmed(ExecutionError::ExecutionUnconfirmed).confirmed);
}

#[test]
fn platform_errors_have_messages() {
    assert_eq!(PlatformError::Unsupported.message(), "capability is not supported on this platform");
    assert_eq!(PlatformError::Failed("boom".to_string()).message(), "platform operation failed: boom");
}

#[test]
fn rejects_newer_schema_without_overwriting() {
    let store = ConfigStore::new("/tmp/link-helm/config.json");
    assert_eq!(store.path(), "/tmp/link-helm/config.json");
    assert!(matches!(
        store.check_stored(br#"{"schema_version": 999, "rules": []}"#),
        Err(ConfigStoreError::UnsupportedSchema(999))
    ));
    assert!(store.check_stored(br#"{"schema_version": 1, "rules": []}"#).is_ok());
    assert!(store.check_stored(br#"{"rules": []}"#).is_ok());
    assert!(matches!(store.check_stored(b"{not-json"), Err(ConfigStoreError::Json(_))));
}

#[test]
fn config_store_errors_have_messages() {
    assert_eq!(ConfigStoreError::UnsupportedSchema(999).message(), "unsupported schema version: 999");
    assert_eq!(ConfigStoreError::MissingPath.message(), "config file has no path");
    let io = ConfigStoreError::Io { message: "denied".to_string(), not_found: false };
    assert_eq!(io.message(), "io error: denied");
}

#[test]
fn a_failed_load_gives_the_default_config() {
    let store = ConfigStore::new("/tmp/link-helm/config.json");
    let config = store.load_or_default(Err(ConfigStoreError::MissingPath));
    assert_eq!(config.schema_version, 1);
    assert!(config.rules.is_empty());
}
