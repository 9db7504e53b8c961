use link_helm::browser::{BrowserProfile, OpenDisposition};
use link_helm::chromium::ProfileListing;
use link_helm::commands::{
    should_hide_settings, source_application_or_unknown, test_open_disposition, url_args,
    FocusReturnTracker,
};
use link_helm::config::{
    Enforcement, FallbackScope, RouteRule, RouterConfig, RuleMatcher, RuleTarget, TargetMode,
    UnavailableAction,
};
use link_helm::config_store::ConfigStoreError;
use link_helm::desktop::{
    candidate_disposition, candidate_identity_id, check_config, prepare_config, BrowserFindings,
    ConfigImportPreview, DesktopService, OpenAction, RouteDisposition, RouteStart,
};
use link_helm::diagnostics::DiagnosticLog;
use link_helm::domain::DomainPattern;
use link_helm::ids::{BrowserId, ProfileId, RuleId};
use link_helm::preferences::{AppLocale, PreferencesStore};
use link_helm::routing::{CandidateKind, FinalAction, OpenCandidate};
use link_helm::web_url::WebUrl;

fn temporary_service() -> DesktopService {
    DesktopService::new(
        Err(ConfigStoreError::Io { message: "not found".to_string(), not_found: true }),
        DiagnosticLog::default_log(),
    )
}

fn any_rule(id: &str, mode: TargetMode, unavailable: UnavailableAction) -> RouteRule {
    RouteRule {
        id: RuleId::new(id),
        name: None,
        enabled: true,
        order: 0,
        matcher: RuleMatcher { source_app: None, domain: None },
        target: RuleTarget { mode, browser_id: None, profile_id: None },
        enforcement: Enforcement::Prefer,
        fallback_scope: FallbackScope::NoFallback,
        unavailable_action: unavailable,
    }
}

fn route(service: &mut DesktopService, url: &str, source: &str) -> RouteStart {
    let url = WebUrl::parse(url).unwrap();
    assert!(service.can_route(&url, source));
    service.route_url(&url, source, 1_000)
}

fn settled(start: RouteStart) -> RouteDisposition {
    match start {
        RouteStart::Settled(d) => d,
        RouteStart::Opening(_) => panic!("expected a settled route"),
    }
}

fn chrome_findings(dirs: &[&str]) -> BrowserFindings {
    BrowserFindings {
        installed: true,
        listing: Some(ProfileListing { directories: dirs.iter().map(|d| d.to_string()).collect(), local_state: None }),
        profiles_ini: None,
    }
}

fn missing() -> BrowserFindings {
    BrowserFindings { installed: false, listing: None, profiles_ini: None }
}

#[test]
fn profile_test_prefers_an_existing_browser_managed_window() {
    assert_eq!(test_open_disposition(), OpenDisposition::ExistingWindow);
}

#[test]
fn focus_is_not_restored_before_system_settings_has_been_seen() {
    let mut tracker = FocusReturnTracker::default();
    assert!(!tracker.observe(Some("com.apple.Safari")));
    assert!(!tracker.observe(None));
}

#[test]
fn focus_is_restored_after_leaving_system_settings() {
    let mut tracker = FocusReturnTracker::default();
    assert!(!tracker.observe(Some("com.apple.systempreferences")));
    assert!(!tracker.observe(Some("com.apple.systempreferences")));
    assert!(tracker.observe(Some("com.apple.Safari")));
}

#[test]
fn focus_keeps_returning_once_settings_was_left() {
    let mut tracker = FocusReturnTracker::default();
    assert!(!tracker.observe(Some("com.apple.systempreferences")));
    assert!(tracker.observe(Some("com.apple.Safari")));
    assert!(tracker.observe(None));
    assert!(!tracker.observe(Some("com.apple.systempreferences")));
}

#[test]
fn only_a_focused_settings_close_request_hides_settings() {
    assert!(should_hide_settings("settings", true));
    assert!(!should_hide_settings("settings", false));
    assert!(!should_hide_settings("selector", true));
}

#[test]
fn source_application_filters_the_router_itself() {
    assert_eq!(source_application_or_unknown(Some("com.apple.mail".into()), "com.example.linkhelm"), "com.apple.mail");
    assert_eq!(source_application_or_unknown(Some("com.example.linkhelm".into()), "com.example.linkhelm"), "unknown");
    assert_eq!(source_application_or_unknown(None, "com.example.linkhelm"), "unknown");
}

#[test]
fn only_web_links_on_the_command_line_are_routed() {
    let args: Vec<String> = ["--flag", "https://example.com/a", "mailto:x@example.com", "http://b.example"]
        .iter()
        .map(|s| s.to_string())
        .collect();
    let urls: Vec<String> = url_args(&args).iter().map(|u| u.as_str().to_string()).collect();
    assert_eq!(urls, vec!["https://example.com/a".to_string(), "http://b.example/".to_string()]);
}

#[test]
fn locales_have_titles_and_tray_labels() {
    assert_eq!(AppLocale::English.settings_title(), "Link Helm Settings");
    assert_eq!(AppLocale::SimplifiedChinese.selector_title(), "选择浏览器身份");
    assert_eq!(AppLocale::English.tray_labels().quit, "Quit Link Helm");
    assert_eq!(AppLocale::SimplifiedChinese.tray_labels().pause, "暂停路由");
    assert_eq!(AppLocale::default(), AppLocale::English);
}

#[test]
fn locale_changes_only_once_written() {
    let mut preferences = PreferencesStore::load(None);
    assert_eq!(preferences.locale(), AppLocale::English);
    assert!(preferences.save_locale(AppLocale::SimplifiedChinese, Err("disk full".to_string())).is_err());
    assert_eq!(preferences.locale(), AppLocale::English);
    preferences.save_locale(AppLocale::SimplifiedChinese, Ok(())).unwrap();
    assert_eq!(preferences.locale(), AppLocale::SimplifiedChinese);
}

#[test]
fn diagnostics_keep_domain_but_not_sensitive_url_parts() {
    let mut log = DiagnosticLog::default_log();
    let url = WebUrl::parse("https://Example.com/private/path?token=secret#account").unwrap();
    log.record_route(1, "com.example.source", &url, "failed", None, None, Some("launch_failed".into()));
    let event = &log.events()[0];
    assert_eq!(event.domain, "example.com");
    let text = format!("{:?}", log.events());
    assert!(text.contains("example.com"));
    assert!(!text.contains("private"));
    assert!(!text.contains("secret"));
    assert!(!text.contains("account"));
}

#[test]
fn route_diagnostics_preserve_rule_and_target_identity() {
    let mut log = DiagnosticLog::default_log();
    let url = WebUrl::parse("https://example.com/private?token=secret").unwrap();
    log.record_route(2, "com.example.source", &url, "opened", Some("dingtalk-chrome-default"), Some("com.google.Chrome/Default"), None);
    let event = log.events().last().unwrap();
    assert_eq!(event.rule_id.as_deref(), Some("dingtalk-chrome-default"));
    assert_eq!(event.identity_id.as_deref(), Some("com.google.Chrome/Default"));
    let text = format!("{:?}", event);
    assert!(!text.contains("private"));
    assert!(!text.contains("secret"));
}

#[test]
fn diagnostics_are_bounded() {
    let mut log = DiagnosticLog::default_log();
    let url = WebUrl::parse("https://example.com").unwrap();
    for i in 0..1005 {
        log.record_route(i, "source", &url, "ok", None, None, None);
    }
    assert_eq!(log.events().len(), 1000);
    assert_eq!(log.events()[0].timestamp_ms, 5);
}

#[test]
fn diagnostics_limit_is_checked_and_applied() {
    let mut log = DiagnosticLog::default_log();
    let url = WebUrl::parse("https://example.com").unwrap();
    for i in 0..10 {
        log.record_route(i, "source", &url, "ok", None, None, None);
    }
    assert_eq!(log.set_limit(0), Err("diagnostics limit must be between 1 and 100000".to_string()));
    assert!(log.set_limit(100_001).is_err());
    log.set_limit(3).unwrap();
    assert_eq!(log.limit(), 3);
    assert_eq!(log.events().len(), 3);
    assert_eq!(log.events()[0].timestamp_ms, 7);
    log.clear();
    assert!(log.events().is_empty());
}

#[test]
fn log_operations_never_set_a_persistence_error() {
    let mut log = DiagnosticLog::default_log();
    let url = WebUrl::parse("https://example.com/a?b#c").unwrap();
    log.record_route(1, "source", &url, "ok", None, None, None);
    assert_eq!(log.set_limit(1), Ok(()));
    assert!(log.set_limit(0).is_err());
    log.record_route(2, "source", &url, "failed", Some("r"), None, Some("e".to_string()));
    log.clear();
    assert_eq!(log.set_limit(100_000), Ok(()));
    log.record_route(3, "source", &url, "ok", None, None, None);
    assert_eq!(log.persistence_error(), None);
    assert_eq!(log.events().len(), 1);
}

#[test]
fn stored_diagnostics_are_clamped_and_trimmed() {
    let restored = DiagnosticLog::from_stored(Some(0), Vec::new());
    assert_eq!(restored.limit(), 1);
    let legacy = DiagnosticLog::from_stored(None, Vec::new());
    assert_eq!(legacy.limit(), 1000);
    let invalid = DiagnosticLog::invalid_file("EOF");
    assert_eq!(invalid.persistence_error(), Some("diagnostics file is invalid: EOF"));
    let mut log = DiagnosticLog::default_log();
    assert_eq!(log.record_persistence(Err("read-only".to_string())), Err("read-only".to_string()));
    assert_eq!(log.persistence_error(), Some("read-only"));
}

#[test]
fn invalid_rules_are_not_saved() {
    let mut service = temporary_service();
    let mut rule = any_rule("invalid", TargetMode::SpecifiedProfile, UnavailableAction::Ask);
    rule.target.browser_id = Some(BrowserId::new("com.google.Chrome"));
    rule.enforcement = Enforcement::Force;
    let config = RouterConfig { schema_version: 1, rules: vec![rule] };
    assert!(service.save_config(config, Ok(())).is_err());
    assert!(service.config.rules.is_empty());
}

#[test]
fn saved_rule_names_are_trimmed() {
    let mut service = temporary_service();
    let mut rule = any_rule("named", TargetMode::Ask, UnavailableAction::Ask);
    rule.name = Some("  DingTalk links  ".to_string());
    let config = RouterConfig { schema_version: 1, rules: vec![rule] };
    let prepared = prepare_config(config).unwrap();
    service.save_config(prepared, Ok(())).unwrap();
    assert_eq!(service.config.rules[0].name.as_deref(), Some("DingTalk links"));
}

#[test]
fn a_saved_config_saves_unchanged() {
    let mut service = temporary_service();
    let mut rule = any_rule("named", TargetMode::Ask, UnavailableAction::Ask);
    rule.name = Some("  Work  ".to_string());
    service.save_config(RouterConfig { schema_version: 1, rules: vec![rule] }, Ok(())).unwrap();
    let mut saved_rule = any_rule("named", TargetMode::Ask, UnavailableAction::Ask);
    saved_rule.name = service.config.rules[0].name.clone();
    let again = RouterConfig { schema_version: service.config.schema_version, rules: vec![saved_rule] };
    service.save_config(again, Ok(())).unwrap();
    assert_eq!(service.config.schema_version, 1);
    assert_eq!(service.config.rules.len(), 1);
    assert_eq!(service.config.rules[0].id, RuleId::new("named"));
    assert_eq!(service.config.rules[0].name.as_deref(), Some("Work"));
}

#[test]
fn newer_schemas_are_refused() {
    let config = RouterConfig { schema_version: 2, rules: Vec::new() };
    assert_eq!(prepare_config(config).unwrap_err(), "unsupported schema version: 2");
    let config = RouterConfig { schema_version: 7, rules: Vec::new() };
    assert_eq!(check_config(config).unwrap_err(), "unsupported schema version: 7");
    let mut service = temporary_service();
    let config = RouterConfig { schema_version: 3, rules: vec![any_rule("a", TargetMode::Ask, UnavailableAction::Ask)] };
    assert_eq!(service.save_config(config, Ok(())).unwrap_err(), "unsupported schema version: 3");
    assert!(service.config.rules.is_empty());
}

#[test]
fn a_failed_write_keeps_the_current_config() {
    let mut service = temporary_service();
    let prepared = prepare_config(RouterConfig { schema_version: 1, rules: vec![any_rule("a", TargetMode::Ask, UnavailableAction::Ask)] }).unwrap();
    assert!(service.save_config(prepared, Err("disk full".to_string())).is_err());
    assert!(service.config.rules.is_empty());
}

#[test]
fn invalid_import_does_not_replace_the_current_config() {
    let mut service = temporary_service();
    service.config.rules.push(any_rule("existing", TargetMode::Ask, UnavailableAction::Ask));
    let broken = any_rule("broken", TargetMode::SpecifiedProfile, UnavailableAction::Ask);
    let result = check_config(RouterConfig { schema_version: 1, rules: vec![broken] });
    assert!(result.is_err());
    assert_eq!(service.config.rules.len(), 1);
    assert_eq!(service.config.rules[0].id.as_str(), "existing");
}

#[test]
fn import_preview_counts_rules() {
    let mut disabled = any_rule("b", TargetMode::Ask, UnavailableAction::Ask);
    disabled.enabled = false;
    let config = RouterConfig { schema_version: 1, rules: vec![any_rule("a", TargetMode::Ask, UnavailableAction::Ask), disabled] };
    let preview = ConfigImportPreview::of(&config);
    assert_eq!(preview.schema_version, 1);
    assert_eq!(preview.rule_count, 2);
    assert_eq!(preview.enabled_rule_count, 1);
}

#[test]
fn damaged_config_enters_safe_mode_without_overwriting_the_file() {
    let service = DesktopService::new(Err(ConfigStoreError::Json("expected value".to_string())), DiagnosticLog::default_log());
    assert!(service.config.rules.is_empty());
    assert_eq!(service.config_error.as_deref(), Some("json error: expected value"));
    let missing = temporary_service();
    assert!(missing.config_error.is_none());
}

#[test]
fn active_candidates_request_active_window_execution() {
    assert_eq!(
        candidate_disposition(&OpenCandidate {
            browser_id: BrowserId::new("com.google.Chrome"),
            profile_id: Some(ProfileId::new("Default")),
            kind: CandidateKind::GloballyActive,
        }),
        OpenDisposition::ActiveWindow
    );
}

#[test]
fn diagnostic_identity_uses_the_candidate_browser_and_profile() {
    let identity = candidate_identity_id(&OpenCandidate {
        browser_id: BrowserId::new("com.google.Chrome"),
        profile_id: Some(ProfileId::new("Default")),
        kind: CandidateKind::SpecifiedProfile,
    });
    assert_eq!(identity.as_deref(), Some("com.google.Chrome/Default"));
}

#[test]
fn recent_browser_identities_become_available_runtime_sessions() {
    let mut service = temporary_service();
    service.record_active_identity(BrowserId::new("com.google.Chrome"), ProfileId::new("Default"), 1_000);
    service.record_active_identity(BrowserId::new("com.brave.Browser"), ProfileId::new("Profile 1"), 6_000);
    let runtime = service.runtime_snapshot();
    assert_eq!(runtime.sessions.len(), 2);
    assert!(runtime.sessions.iter().all(|session| session.is_available()));
    assert_eq!(
        runtime.sessions.iter().max_by_key(|session| session.last_user_activation).unwrap().browser_id.as_str(),
        "com.brave.Browser"
    );
}

#[test]
fn a_non_browser_frontmost_app_does_not_invent_recent_browser_activation() {
    let mut service = temporary_service();
    service.record_available_profile(BrowserId::new("com.google.Chrome"), ProfileId::new("Default"));
    service.record_available_profile(BrowserId::new("com.brave.Browser"), ProfileId::new("Profile 1"));
    service.seed_frontmost_browser_identity(Some("com.alibaba.DingTalkMac".to_string()), Some(ProfileId::new("Default")), 9_000);
    assert!(service.runtime_snapshot().sessions.iter().all(|session| session.last_user_activation.is_none()));
}

#[test]
fn a_later_activation_replaces_the_browsers_profile() {
    let mut service = temporary_service();
    service.record_active_identity(BrowserId::new("com.google.Chrome"), ProfileId::new("Default"), 1_000);
    service.record_active_identity(BrowserId::new("com.google.Chrome"), ProfileId::new("Profile 6"), 2_000);
    let runtime = service.runtime_snapshot();
    assert_eq!(runtime.sessions.len(), 2);
    let active: Vec<_> = runtime.sessions.iter().filter(|s| s.last_user_activation.is_some()).collect();
    assert_eq!(active.len(), 1);
    assert_eq!(active[0].profile_id.as_str(), "Profile 6");
    assert_eq!(active[0].last_user_activation, Some(2_000));
}

#[test]
fn active_browser_rule_uses_the_recorded_identity_instead_of_asking() {
    let mut service = temporary_service();
    service.record_active_identity(BrowserId::new("com.google.Chrome"), ProfileId::new("Profile 6"), 5_000);
    let mut rule = any_rule("active-chrome", TargetMode::ActiveInBrowser, UnavailableAction::Ask);
    rule.name = Some("Active Chrome".to_string());
    rule.target.browser_id = Some(BrowserId::new("com.google.Chrome"));
    service.config.rules.push(rule);
    let url = WebUrl::parse("https://example.com").unwrap();
    let decision = service.preview("com.alibaba.DingTalkMac", &url);
    assert_eq!(decision.final_action, FinalAction::Open);
    assert_eq!(decision.primary().unwrap().profile_id.as_ref().unwrap().as_str(), "Profile 6");
}

#[test]
fn an_open_specified_profile_wins_before_any_active_fallback() {
    let mut service = temporary_service();
    service.record_active_identity(BrowserId::new("com.google.Chrome"), ProfileId::new("Profile 6"), 5_000);
    service.record_available_profile(BrowserId::new("com.google.Chrome"), ProfileId::new("Default"));
    let mut rule = any_rule("prefer-default", TargetMode::SpecifiedProfile, UnavailableAction::OpenTargetProfile);
    rule.name = Some("Default".to_string());
    rule.target.browser_id = Some(BrowserId::new("com.google.Chrome"));
    rule.target.profile_id = Some(ProfileId::new("Default"));
    rule.fallback_scope = FallbackScope::AnyActiveBrowser;
    service.config.rules.push(rule);
    let url = WebUrl::parse("https://example.com").unwrap();
    let decision = service.preview("com.alibaba.DingTalkMac", &url);
    let candidate = decision.primary().unwrap();
    assert_eq!(candidate.kind, CandidateKind::SpecifiedProfile);
    assert_eq!(candidate.profile_id.as_ref().unwrap().as_str(), "Default");
}

#[test]
fn browser_scan_reports_installed_and_missing_browsers() {
    let mut service = temporary_service();
    service.scan_browsers(chrome_findings(&["Default", "Profile 1", "Crashpad"]), missing(), missing(), missing());
    let browsers = &service.browsers;
    assert_eq!(browsers.len(), 4);
    assert!(browsers.iter().any(|browser| browser.descriptor.id.as_str() == "com.google.Chrome"));
    assert!(browsers.iter().all(|browser| browser.installed || browser.profiles.is_empty()));
    assert_eq!(browsers[0].profiles.len(), 2);
    assert_eq!(browsers[3].descriptor.id.as_str(), "org.mozilla.firefox");
}

#[test]
fn a_browser_whose_profiles_cannot_be_read_reports_why() {
    let mut service = temporary_service();
    let firefox = BrowserFindings { installed: true, listing: None, profiles_ini: Some(Err("denied".to_string())) };
    let edge = BrowserFindings { installed: true, listing: None, profiles_ini: None };
    service.scan_browsers(missing(), edge, missing(), firefox);
    assert_eq!(service.browsers[1].error.as_deref(), Some("browser error: browser data dir unknown"));
    assert_eq!(service.browsers[3].error.as_deref(), Some("browser error: cannot read profiles.ini: denied"));
}

#[test]
fn preview_uses_saved_rules() {
    let mut service = temporary_service();
    let mut rule = any_rule("ask-example", TargetMode::Ask, UnavailableAction::Ask);
    rule.matcher.domain = Some(DomainPattern::parse("example.com").unwrap().into());
    service.config.rules.push(rule);
    let url = WebUrl::parse("https://example.com/a").unwrap();
    let decision = service.preview("com.apple.mail", &url);
    assert_eq!(decision.matched_rule_id.unwrap().as_str(), "ask-example");
}

#[test]
fn unmatched_external_url_is_queued_for_selection() {
    let mut service = temporary_service();
    let disposition = settled(route(&mut service, "https://example.com/private?token=secret", "unknown"));
    assert_eq!(disposition, RouteDisposition::Ask);
    assert_eq!(service.pending_routes().len(), 1);
    assert_eq!(service.pending_routes()[0].domain, "example.com");
}

#[test]
fn failed_pending_selection_keeps_the_route_available() {
    let mut service = temporary_service();
    settled(route(&mut service, "https://example.com/private", "com.apple.mail"));
    let id = service.pending_routes()[0].id;
    let result = service.prepare_pending_choice(id, "com.google.Chrome", "missing-profile");
    assert!(result.is_err());
    assert_eq!(service.pending_routes().len(), 1);
    assert_eq!(service.pending_routes()[0].id, id);
}

#[test]
fn a_pending_choice_opens_in_an_existing_window_and_is_logged() {
    let mut service = temporary_service();
    service.scan_browsers(chrome_findings(&["Default"]), missing(), missing(), missing());
    settled(route(&mut service, "https://example.com/private", "com.apple.mail"));
    let id = service.pending_routes()[0].id;
    let intent = service.prepare_pending_choice(id, "com.google.Chrome", "Default").unwrap();
    assert_eq!(intent.disposition, OpenDisposition::ExistingWindow);
    assert_eq!(intent.args, vec!["--profile-directory=Default".to_string(), "https://example.com/private".to_string()]);
    assert!(service.finish_pending_choice(id, "com.google.Chrome", "Default", Err("launch failed".to_string()), 2_000).is_err());
    assert_eq!(service.pending_routes().len(), 1);
    service.finish_pending_choice(id, "com.google.Chrome", "Default", Ok(()), 2_000).unwrap();
    assert!(service.pending_routes().is_empty());
    let event = service.diagnostics.events().last().unwrap();
    assert_eq!(event.outcome, "opened");
    assert_eq!(event.identity_id.as_deref(), Some("com.google.Chrome/Default"));
}

#[test]
fn cancelling_a_pending_route_removes_it_without_opening() {
    let mut service = temporary_service();
    settled(route(&mut service, "https://example.com/private", "com.apple.mail"));
    let id = service.pending_routes()[0].id;
    service.cancel_pending(id, 2_000).unwrap();
    assert!(service.pending_routes().is_empty());
    assert_eq!(service.diagnostics.events().last().unwrap().outcome, "cancelled");
    assert_eq!(service.cancel_pending(id, 3_000), Err("pending route was not found".to_string()));
}

#[test]
fn ask_next_is_consumed_by_exactly_one_route() {
    let mut service = temporary_service();
    service.config.rules.push(any_rule("fail-all", TargetMode::GloballyActive, UnavailableAction::Fail));
    service.ask_next = true;
    let first = settled(route(&mut service, "https://first.example", "com.apple.mail"));
    let second = settled(route(&mut service, "https://second.example", "com.apple.mail"));
    assert_eq!(first, RouteDisposition::Ask);
    assert_eq!(second, RouteDisposition::Failed);
    assert!(!service.ask_next);
    assert_eq!(service.pending_routes().len(), 1);
    let failed = service.diagnostics.events().last().unwrap();
    assert_eq!(failed.error.as_deref(), Some("MatchedRule(RuleId(\"fail-all\"))"));
}

#[test]
fn unsupported_scheme_fails_without_entering_the_selector_queue() {
    let mut service = temporary_service();
    let disposition = settled(route(&mut service, "file:///Users/example/private.txt", "com.apple.finder"));
    assert_eq!(disposition, RouteDisposition::Failed);
    assert!(service.pending_routes().is_empty());
    assert_eq!(service.diagnostics.events().last().unwrap().error.as_deref(), Some("UnsupportedScheme"));
}

#[test]
fn an_open_decision_tries_candidates_until_one_launches() {
    let mut service = temporary_service();
    service.scan_browsers(chrome_findings(&["Default"]), missing(), missing(), missing());
    service.record_active_identity(BrowserId::new("com.google.Chrome"), ProfileId::new("Default"), 5_000);
    service.config.rules.push(any_rule("active", TargetMode::GloballyActive, UnavailableAction::Ask));
    let progress = match route(&mut service, "https://example.com/x", "com.apple.mail") {
        RouteStart::Opening(p) => p,
        RouteStart::Settled(_) => panic!("expected candidates to try"),
    };
    assert_eq!(service.next_event_id(), 2);
    let (intent, progress) = match service.advance_open(progress, None, 6_000) {
        OpenAction::Launch(intent, progress) => (intent, progress),
        OpenAction::Finished(_) => panic!("expected a launch"),
    };
    assert_eq!(intent.disposition, OpenDisposition::ActiveWindow);
    assert_eq!(intent.args, vec!["--profile-directory=Default".to_string(), "https://example.com/x".to_string()]);
    match service.advance_open(progress, Some(Err("launch failed".to_string())), 6_500) {
        OpenAction::Finished(result) => assert_eq!(result, Err("launch failed".to_string())),
        OpenAction::Launch(_, _) => panic!("no candidate is left"),
    }
    let event = service.diagnostics.events().last().unwrap();
    assert_eq!(event.outcome, "failed");
    assert_eq!(event.identity_id.as_deref(), Some("com.google.Chrome/Default"));
}

#[test]
fn a_successful_launch_is_logged_as_opened() {
    let mut service = temporary_service();
    service.scan_browsers(chrome_findings(&["Default"]), missing(), missing(), missing());
    service.record_active_identity(BrowserId::new("com.google.Chrome"), ProfileId::new("Default"), 5_000);
    service.config.rules.push(any_rule("active", TargetMode::GloballyActive, UnavailableAction::Ask));
    let progress = match route(&mut service, "https://example.com/x", "com.apple.mail") {
        RouteStart::Opening(p) => p,
        RouteStart::Settled(_) => panic!("expected candidates to try"),
    };
    let progress = match service.advance_open(progress, None, 6_000) {
        OpenAction::Launch(_, progress) => progress,
        OpenAction::Finished(_) => panic!("expected a launch"),
    };
    match service.advance_open(progress, Some(Ok(())), 6_100) {
        OpenAction::Finished(result) => assert_eq!(result, Ok(RouteDisposition::Opened)),
        OpenAction::Launch(_, _) => panic!("the launch succeeded"),
    }
    let event = service.diagnostics.events().last().unwrap();
    assert_eq!(event.outcome, "opened");
    assert_eq!(event.rule_id.as_deref(), Some("active"));
}

#[test]
fn an_undiscovered_profile_is_reported_as_unavailable() {
    let mut service = temporary_service();
    service.record_active_identity(BrowserId::new("com.google.Chrome"), ProfileId::new("Ghost"), 5_000);
    service.config.rules.push(any_rule("active", TargetMode::GloballyActive, UnavailableAction::Ask));
    let progress = match route(&mut service, "https://example.com/x", "com.apple.mail") {
        RouteStart::Opening(p) => p,
        RouteStart::Settled(_) => panic!("expected candidates to try"),
    };
    match service.advance_open(progress, None, 6_000) {
        OpenAction::Finished(result) => assert_eq!(result, Err("profile_unavailable".to_string())),
        OpenAction::Launch(_, _) => panic!("the profile was never discovered"),
    }
}

#[test]
fn a_browser_default_rule_launches_the_link_alone() {
    let mut service = temporary_service();
    let mut rule = any_rule("default-browser", TargetMode::BrowserDefault, UnavailableAction::Ask);
    rule.target.browser_id = Some(BrowserId::new("org.mozilla.firefox"));
    service.config.rules.push(rule);
    let progress = match route(&mut service, "https://example.com/x", "com.apple.mail") {
        RouteStart::Opening(p) => p,
        RouteStart::Settled(_) => panic!("expected candidates to try"),
    };
    match service.advance_open(progress, None, 6_000) {
        OpenAction::Launch(intent, _) => {
            assert_eq!(intent.browser_id.as_str(), "org.mozilla.firefox");
            assert!(intent.profile_id.is_none());
            assert_eq!(intent.args, vec!["https://example.com/x".to_string()]);
        },
        OpenAction::Finished(_) => panic!("expected a launch"),
    }
}

#[test]
fn an_incomplete_rule_cannot_be_routed() {
    let mut service = temporary_service();
    service.config.rules.push(any_rule("broken", TargetMode::SpecifiedProfile, UnavailableAction::Ask));
    let url = WebUrl::parse("https://example.com").unwrap();
    assert!(!service.can_route(&url, "com.apple.mail"));
    service.paused = true;
    assert!(service.can_route(&url, "com.apple.mail"));
}

#[test]
fn the_running_browsers_become_the_open_profiles() {
    let mut service = temporary_service();
    service.scan_browsers(chrome_findings(&["Default", "Profile 1"]), missing(), missing(), missing());
    let running = vec![(BrowserId::new("com.google.Chrome"), vec![ProfileId::new("Profile 1"), ProfileId::new("Unknown")])];
    service.observe_foreground_browser(Some("com.google.Chrome".to_string()), &running, Some(ProfileId::new("Profile 1")), 8_000);
    let runtime = service.runtime_snapshot();
    assert_eq!(runtime.sessions.len(), 1);
    assert_eq!(runtime.sessions[0].profile_id.as_str(), "Profile 1");
    assert_eq!(runtime.sessions[0].last_user_activation, Some(8_000));
}

#[test]
fn discovered_profiles_can_be_opened_for_a_test() {
    let service = temporary_service();
    let profile = BrowserProfile {
        browser_id: BrowserId::new("com.example.Unknown"),
        profile_id: ProfileId::new("p"),
        display_name: "p".to_string(),
        launch_args: Vec::new(),
        is_incognito: false,
    };
    let url = WebUrl::parse("https://example.com").unwrap();
    assert_eq!(service.build_open_intent(&profile, &url, test_open_disposition()).unwrap_err(), "unsupported browser");
}

#[test]
fn failure_log_writes_the_rule_id_in_its_debug_form() {
    let mut service = temporary_service();
    service.config.rules.push(any_rule("fail\u{1}\"x\"", TargetMode::GloballyActive, UnavailableAction::Fail));
    let outcome = settled(route(&mut service, "https://example.com", "com.apple.mail"));
    assert_eq!(outcome, RouteDisposition::Failed);
    let failed = service.diagnostics.events().last().unwrap();
    assert_eq!(failed.error.as_deref(), Some("MatchedRule(RuleId(\"fail\\u{1}\\\"x\\\"\"))"));
}
