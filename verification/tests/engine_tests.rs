use link_helm::browser::{BrowserSession, IdentityRef, WindowRef};
use link_helm::config::{
    Enforcement, FallbackScope, OneOrMany, RouteRule, RouterConfig, RuleMatcher, RuleTarget,
    TargetMode, UnavailableAction, SCHEMA_VERSION,
};
use link_helm::domain::DomainPattern;
use link_helm::engine::{rule_matches, DefaultRouteEngine, RouteEngine};
use link_helm::ids::{AppId, BrowserId, ProfileId, RuleId};
use link_helm::routing::{
    CandidateKind, DecisionReason, FinalAction, RouteContext, RouteDecision, RuntimeSnapshot,
};
use link_helm::web_url::WebUrl;

fn ctx(url: &str) -> RouteContext {
    RouteContext {
        url: WebUrl::parse(url).unwrap(),
        source_app: AppId::new("com.example.SourceApp"),
        event_id: "evt-1".to_string(),
        ask_next: false,
        paused: false,
    }
}

fn session(browser: &str, profile: &str, windows: usize, incognito: bool, last_active: Option<u64>) -> BrowserSession {
    BrowserSession {
        browser_id: BrowserId::new(browser),
        profile_id: ProfileId::new(profile),
        windows: (0..windows).map(|i| WindowRef(format!("w{i}"))).collect(),
        is_incognito: incognito,
        last_user_activation: last_active,
    }
}

fn rule(
    id: &str,
    matcher: RuleMatcher,
    target: RuleTarget,
    enforcement: Enforcement,
    fallback: FallbackScope,
    unavailable: UnavailableAction,
) -> RouteRule {
    RouteRule {
        id: RuleId::new(id),
        name: None,
        enabled: true,
        order: 0,
        matcher,
        target,
        enforcement,
        fallback_scope: fallback,
        unavailable_action: unavailable,
    }
}

fn any_matcher() -> RuleMatcher {
    RuleMatcher { source_app: None, domain: None }
}

fn target(mode: TargetMode) -> RuleTarget {
    RuleTarget { mode, browser_id: None, profile_id: None }
}

fn empty_runtime() -> RuntimeSnapshot {
    RuntimeSnapshot { sessions: Vec::new(), source_identity: None }
}

fn globals(config: RouterConfig, runtime: RuntimeSnapshot) -> RouteDecision {
    DefaultRouteEngine::new().decide(&ctx("https://example.com/a"), &config, &runtime)
}

#[test]
fn multiple_match_values_use_or_within_each_field() {
    let multi_rule = rule(
        "multi",
        RuleMatcher {
            source_app: Some(OneOrMany::Many(vec![
                AppId::new("com.example.Other"),
                AppId::new("com.example.SourceApp"),
            ])),
            domain: Some(OneOrMany::Many(vec![
                DomainPattern::parse("other.example").unwrap(),
                DomainPattern::parse("example.com").unwrap(),
            ])),
        },
        target(TargetMode::Ask),
        Enforcement::Prefer,
        FallbackScope::NoFallback,
        UnavailableAction::Ask,
    );
    assert!(rule_matches(&multi_rule, "com.example.SourceApp", "example.com"));
    assert!(!rule_matches(&multi_rule, "com.example.Unknown", "example.com"));
    assert!(!rule_matches(&multi_rule, "com.example.SourceApp", "unknown.example"));

    let config = RouterConfig { schema_version: SCHEMA_VERSION, rules: vec![multi_rule] };
    let decision = globals(config, empty_runtime());
    assert_eq!(decision.matched_rule_id, Some(RuleId::new("multi")));
}

#[test]
fn picks_highest_priority_tier() {
    let config = RouterConfig {
        schema_version: SCHEMA_VERSION,
        rules: vec![
            rule(
                "global",
                any_matcher(),
                target(TargetMode::GloballyActive),
                Enforcement::Prefer,
                FallbackScope::NoFallback,
                UnavailableAction::Ask,
            ),
            rule(
                "domain",
                RuleMatcher {
                    source_app: None,
                    domain: Some(DomainPattern::parse("example.com").unwrap().into()),
                },
                target(TargetMode::Ask),
                Enforcement::Prefer,
                FallbackScope::NoFallback,
                UnavailableAction::Ask,
            ),
        ],
    };
    let d = globals(config, empty_runtime());
    assert_eq!(d.reason, DecisionReason::MatchedRule(RuleId::new("domain")));
}

#[test]
fn same_tier_honours_order() {
    let mut second = rule(
        "second",
        RuleMatcher {
            source_app: None,
            domain: Some(DomainPattern::parse("example.com").unwrap().into()),
        },
        target(TargetMode::Ask),
        Enforcement::Prefer,
        FallbackScope::NoFallback,
        UnavailableAction::Ask,
    );
    let mut first = rule(
        "first",
        RuleMatcher {
            source_app: None,
            domain: Some(DomainPattern::parse("example.com").unwrap().into()),
        },
        target(TargetMode::Ask),
        Enforcement::Prefer,
        FallbackScope::NoFallback,
        UnavailableAction::Ask,
    );
    second.order = 2;
    first.order = 1;
    let c = RouterConfig { schema_version: SCHEMA_VERSION, rules: vec![second, first] };
    let d = globals(c, empty_runtime());
    assert_eq!(d.reason, DecisionReason::MatchedRule(RuleId::new("first")));
}

#[test]
fn globally_active_uses_most_recent_available_session() {
    let early = 1_000;
    let late = early + 10_000;
    let runtime = RuntimeSnapshot {
        sessions: vec![
            session("chrome", "work", 1, false, Some(early)),
            session("firefox", "home", 1, false, Some(late)),
        ],
        source_identity: None,
    };
    let config = RouterConfig {
        schema_version: SCHEMA_VERSION,
        rules: vec![rule(
            "g",
            any_matcher(),
            target(TargetMode::GloballyActive),
            Enforcement::Prefer,
            FallbackScope::NoFallback,
            UnavailableAction::Ask,
        )],
    };
    let d = globals(config, runtime);
    assert_eq!(d.final_action, FinalAction::Open);
    let c = d.primary().unwrap();
    assert_eq!(c.browser_id.as_str(), "firefox");
    assert_eq!(c.profile_id.as_ref().unwrap().as_str(), "home");
}

#[test]
fn incognito_and_windowless_sessions_are_not_available() {
    let now = 5_000;
    let runtime = RuntimeSnapshot {
        sessions: vec![
            session("chrome", "incog", 1, true, Some(now)),
            session("chrome", "empty", 0, false, Some(now)),
        ],
        source_identity: None,
    };
    let config = RouterConfig {
        schema_version: SCHEMA_VERSION,
        rules: vec![rule(
            "g",
            any_matcher(),
            target(TargetMode::GloballyActive),
            Enforcement::Prefer,
            FallbackScope::NoFallback,
            UnavailableAction::Ask,
        )],
    };
    let d = globals(config, runtime);
    assert_eq!(d.final_action, FinalAction::Ask);
}

#[test]
fn unavailable_ask_preserves_the_matched_rule_id() {
    let config = RouterConfig {
        schema_version: SCHEMA_VERSION,
        rules: vec![rule(
            "ask-when-unavailable",
            any_matcher(),
            target(TargetMode::GloballyActive),
            Enforcement::Prefer,
            FallbackScope::NoFallback,
            UnavailableAction::Ask,
        )],
    };
    let decision = globals(config, empty_runtime());
    assert_eq!(decision.matched_rule_id, Some(RuleId::new("ask-when-unavailable")));
}

#[test]
fn unavailable_fail_preserves_the_matched_rule_id() {
    let config = RouterConfig {
        schema_version: SCHEMA_VERSION,
        rules: vec![rule(
            "fail-when-unavailable",
            any_matcher(),
            target(TargetMode::GloballyActive),
            Enforcement::Prefer,
            FallbackScope::NoFallback,
            UnavailableAction::Fail,
        )],
    };
    let decision = globals(config, empty_runtime());
    assert_eq!(decision.final_action, FinalAction::Fail);
    assert_eq!(decision.matched_rule_id, Some(RuleId::new("fail-when-unavailable")));
}

#[test]
fn force_specified_profile_does_not_fall_back() {
    let config = RouterConfig {
        schema_version: SCHEMA_VERSION,
        rules: vec![rule(
            "force",
            any_matcher(),
            RuleTarget {
                mode: TargetMode::SpecifiedProfile,
                browser_id: Some(BrowserId::new("chrome")),
                profile_id: Some(ProfileId::new("work")),
            },
            Enforcement::Force,
            FallbackScope::NoFallback,
            UnavailableAction::CreateTargetWindow,
        )],
    };
    let runtime = RuntimeSnapshot {
        sessions: vec![session("chrome", "other", 1, false, Some(7_000))],
        source_identity: None,
    };
    let d = globals(config, runtime);
    let c = d.primary().unwrap();
    assert_eq!(c.kind, CandidateKind::NewTargetWindow);
    assert_eq!(c.profile_id.as_ref().unwrap().as_str(), "work");
}

#[test]
fn unavailable_target_profile_can_be_opened_without_forcing_a_new_window() {
    let config = RouterConfig {
        schema_version: SCHEMA_VERSION,
        rules: vec![rule(
            "reuse-profile",
            any_matcher(),
            RuleTarget {
                mode: TargetMode::SpecifiedProfile,
                browser_id: Some(BrowserId::new("chrome")),
                profile_id: Some(ProfileId::new("work")),
            },
            Enforcement::Prefer,
            FallbackScope::NoFallback,
            UnavailableAction::OpenTargetProfile,
        )],
    };
    let decision = globals(config, empty_runtime());
    assert_eq!(decision.final_action, FinalAction::Open);
    assert_eq!(decision.primary().unwrap().kind, CandidateKind::SpecifiedProfile);
}

#[test]
fn prefer_falls_back_same_browser_then_any_active() {
    let now = 10_000;
    let runtime = RuntimeSnapshot {
        sessions: vec![
            session("chrome", "other", 1, false, Some(now)),
            session("firefox", "home", 1, false, Some(now - 5_000)),
        ],
        source_identity: None,
    };
    let config = RouterConfig {
        schema_version: SCHEMA_VERSION,
        rules: vec![rule(
            "prefer",
            any_matcher(),
            RuleTarget {
                mode: TargetMode::SpecifiedProfile,
                browser_id: Some(BrowserId::new("chrome")),
                profile_id: Some(ProfileId::new("work")),
            },
            Enforcement::Prefer,
            FallbackScope::SameBrowser,
            UnavailableAction::Ask,
        )],
    };
    let d = globals(config, runtime);
    let c = d.primary().unwrap();
    assert_eq!(c.browser_id.as_str(), "chrome");
    assert_eq!(c.profile_id.as_ref().unwrap().as_str(), "other");
}

#[test]
fn builtin_same_browser_behaviour_uses_source_identity() {
    let config = RouterConfig::default();
    let runtime = RuntimeSnapshot {
        sessions: vec![session("chrome", "work", 1, false, Some(3_000))],
        source_identity: Some(IdentityRef {
            browser_id: BrowserId::new("chrome"),
            profile_id: ProfileId::new("work"),
        }),
    };
    let d = globals(config, runtime);
    assert_eq!(d.reason, DecisionReason::BuiltInSameBrowser);
    assert_eq!(d.primary().unwrap().profile_id.as_ref().unwrap().as_str(), "work");
}

#[test]
fn global_default_rule_overrides_builtin() {
    let config = RouterConfig {
        schema_version: SCHEMA_VERSION,
        rules: vec![rule(
            "default",
            any_matcher(),
            target(TargetMode::Ask),
            Enforcement::Prefer,
            FallbackScope::NoFallback,
            UnavailableAction::Ask,
        )],
    };
    let runtime = RuntimeSnapshot {
        sessions: vec![session("chrome", "work", 1, false, Some(3_000))],
        source_identity: Some(IdentityRef {
            browser_id: BrowserId::new("chrome"),
            profile_id: ProfileId::new("work"),
        }),
    };
    let d = globals(config, runtime);
    assert_eq!(d.reason, DecisionReason::MatchedRule(RuleId::new("default")));
    assert_eq!(d.final_action, FinalAction::Ask);
}

#[test]
fn non_http_scheme_fails() {
    let config = RouterConfig::default();
    let d = DefaultRouteEngine::new().decide(&ctx("mailto:user@example.com"), &config, &empty_runtime());
    assert_eq!(d.final_action, FinalAction::Fail);
    assert_eq!(d.reason, DecisionReason::UnsupportedScheme);
}

#[test]
fn paused_and_ask_next_return_ask() {
    let config = RouterConfig::default();
    let runtime = empty_runtime();
    let mut c = ctx("https://example.com");
    c.paused = true;
    assert_eq!(DefaultRouteEngine::new().decide(&c, &config, &runtime).reason, DecisionReason::Paused);
    c.paused = false;
    c.ask_next = true;
    assert_eq!(DefaultRouteEngine::new().decide(&c, &config, &runtime).reason, DecisionReason::AskNext);
}

#[test]
fn try_decide_refuses_an_incomplete_rule() {
    let config = RouterConfig {
        schema_version: SCHEMA_VERSION,
        rules: vec![rule(
            "broken",
            any_matcher(),
            target(TargetMode::SpecifiedProfile),
            Enforcement::Prefer,
            FallbackScope::NoFallback,
            UnavailableAction::Ask,
        )],
    };
    let engine = DefaultRouteEngine::new();
    assert!(engine.try_decide(&ctx("https://example.com"), &config, &empty_runtime()).is_none());
    let mut paused = ctx("https://example.com");
    paused.paused = true;
    assert!(engine.try_decide(&paused, &config, &empty_runtime()).is_some());
}

#[test]
fn equal_activations_pick_the_later_session() {
    let runtime = RuntimeSnapshot {
        sessions: vec![
            session("chrome", "a", 1, false, Some(4_000)),
            session("chrome", "b", 1, false, Some(4_000)),
        ],
        source_identity: None,
    };
    let config = RouterConfig {
        schema_version: SCHEMA_VERSION,
        rules: vec![rule(
            "g",
            any_matcher(),
            target(TargetMode::GloballyActive),
            Enforcement::Prefer,
            FallbackScope::NoFallback,
            UnavailableAction::Ask,
        )],
    };
    let d = globals(config, runtime);
    assert_eq!(d.primary().unwrap().profile_id.as_ref().unwrap().as_str(), "b");
}
