//! The routing engine: picks the rule for an incoming link and turns it,
//! with the observed browser sessions, into a decision.

use vstd::prelude::*;

use crate::browser::{BrowserSession, IdentityRef};
use crate::config::{
    Enforcement, FallbackScope, RouteRule, RouterConfig, RuleMatcher, TargetMode,
    UnavailableAction,
};
use crate::domain::{normalize_spec, Domain};
use crate::ids::{BrowserId, ProfileId, RuleId};
use crate::routing::{
    ask_view, fail_view, CandidateKind, CandidateView, DecisionReason, DecisionView,
    FinalAction, OpenCandidate, ReasonView, RouteContext, RouteDecision, RuntimeSnapshot,
};
use crate::text::{ascii_lower_seq, seq_less};
use crate::web_url::WebUrl;

verus! {

// ---------------------------------------------------------------------------
// The decision, stated over plain values.
// ---------------------------------------------------------------------------

/// An index as an integer.
pub open spec fn opt_index(o: Option<usize>) -> Option<int> {
    match o {
        Some(i) => Some(i as int),
        None => None,
    }
}

/// The link's host in normalized form, where it has one that normalizes.
pub open spec fn host_spec(url: WebUrl) -> Option<Seq<char>> {
    match url.host_text() {
        Some(h) => match normalize_spec(h) {
            Ok(d) => Some(d),
            Err(_) => None,
        },
        None => None,
    }
}

/// Whether a scheme is `http` or `https`, in any letter case.
pub open spec fn is_web_scheme(scheme: Seq<char>) -> bool {
    ascii_lower_seq(scheme) == "http"@ || ascii_lower_seq(scheme) == "https"@
}

/// Whether the rule's source applications allow `app`: no list, an empty
/// list, or a list that holds it.
pub open spec fn apps_allow(m: RuleMatcher, app: Seq<char>) -> bool {
    match m.source_app {
        Some(apps) => apps.items().len() == 0 || exists|i: int|
            0 <= i < apps.items().len() && (#[trigger] apps.items()[i])@ == app,
        None => true,
    }
}

/// Whether the rule's domain patterns allow `host`: no list, an empty
/// list, or a list with a pattern that matches it.
pub open spec fn domains_allow(m: RuleMatcher, host: Seq<char>) -> bool {
    match m.domain {
        Some(ps) => ps.items().len() == 0 || exists|i: int|
            0 <= i < ps.items().len() && (#[trigger] ps.items()[i]).matches_spec(host),
        None => true,
    }
}

/// Whether the rule matches a link from `app` to `host`.
pub open spec fn rule_matches_spec(rule: RouteRule, app: Seq<char>, host: Seq<char>) -> bool {
    apps_allow(rule.matcher, app) && domains_allow(rule.matcher, host)
}

/// The precedence tier of a matcher: both fields (0), domain only (1),
/// source application only (2), neither (3). An empty list counts as absent.
pub open spec fn tier_spec(m: RuleMatcher) -> u8 {
    let has_app = m.source_app matches Some(a) && a.items().len() != 0;
    let has_domain = m.domain matches Some(d) && d.items().len() != 0;
    if has_app && has_domain {
        0
    } else if has_domain {
        1
    } else if has_app {
        2
    } else {
        3
    }
}

/// Whether rule `a` takes precedence over rule `b`: by tier, then by
/// `order`, then by identifier.
pub open spec fn key_less(a: RouteRule, b: RouteRule) -> bool {
    ||| tier_spec(a.matcher) < tier_spec(b.matcher)
    ||| (tier_spec(a.matcher) == tier_spec(b.matcher) && a.order < b.order)
    ||| (tier_spec(a.matcher) == tier_spec(b.matcher) && a.order == b.order && seq_less(
        a.id@,
        b.id@,
    ))
}

/// Whether a rule takes part in routing a link from `app` to `host`.
pub open spec fn eligible_rule(rule: RouteRule, app: Seq<char>, host: Seq<char>) -> bool {
    rule.enabled && rule_matches_spec(rule, app, host)
}

/// The rule chosen among the first `n`: the earliest of those with the
/// least key among the enabled rules that match.
pub open spec fn best_rule_upto(rules: Seq<RouteRule>, app: Seq<char>, host: Seq<char>, n: int) -> Option<int>
    decreases n,
{
    if n <= 0 {
        None
    } else {
        let prev = best_rule_upto(rules, app, host, n - 1);
        if eligible_rule(rules[n - 1], app, host) && (prev is None || key_less(
            rules[n - 1],
            rules[prev->0],
        )) {
            Some(n - 1)
        } else {
            prev
        }
    }
}

/// The rule chosen for a link from `app` to `host`.
pub open spec fn best_rule(rules: Seq<RouteRule>, app: Seq<char>, host: Seq<char>) -> Option<int> {
    best_rule_upto(rules, app, host, rules.len() as int)
}

/// Whether a session can take the link and belongs to the given browser
/// and profile (where given).
pub open spec fn session_fits(s: BrowserSession, b: Option<Seq<char>>, p: Option<Seq<char>>) -> bool {
    &&& s.available()
    &&& (b matches Some(bb) ==> s.browser_id@ == bb)
    &&& (p matches Some(pp) ==> s.profile_id@ == pp)
}

/// The first of the first `n` sessions that fits.
pub open spec fn first_session_upto(ss: Seq<BrowserSession>, b: Option<Seq<char>>, p: Option<Seq<char>>, n: int) -> Option<int>
    decreases n,
{
    if n <= 0 {
        None
    } else {
        let prev = first_session_upto(ss, b, p, n - 1);
        if prev is Some {
            prev
        } else if session_fits(ss[n - 1], b, p) {
            Some(n - 1)
        } else {
            None
        }
    }
}

/// The first session that fits.
pub open spec fn first_session(ss: Seq<BrowserSession>, b: Option<Seq<char>>, p: Option<Seq<char>>) -> Option<int> {
    first_session_upto(ss, b, p, ss.len() as int)
}

/// Whether a session counts as recently active for browser `b` (any
/// browser where none is given): it can take links and has an activation.
pub open spec fn recent_candidate(s: BrowserSession, b: Option<Seq<char>>) -> bool {
    session_fits(s, b, None) && s.last_user_activation is Some
}

/// The activation time of a session.
pub open spec fn activation(s: BrowserSession) -> u64 {
    s.last_user_activation->0
}

/// Among the first `n` sessions, the most recently activated one that
/// counts; the last of those where several tie.
pub open spec fn most_recent_upto(ss: Seq<BrowserSession>, b: Option<Seq<char>>, n: int) -> Option<int>
    decreases n,
{
    if n <= 0 {
        None
    } else {
        let prev = most_recent_upto(ss, b, n - 1);
        if recent_candidate(ss[n - 1], b) && (prev is None || activation(ss[n - 1]) >= activation(
            ss[prev->0],
        )) {
            Some(n - 1)
        } else {
            prev
        }
    }
}

/// The most recently activated session that counts for browser `b`.
pub open spec fn most_recent(ss: Seq<BrowserSession>, b: Option<Seq<char>>) -> Option<int> {
    most_recent_upto(ss, b, ss.len() as int)
}

/// A candidate for the session's identity.
pub open spec fn session_candidate(s: BrowserSession, kind: CandidateKind) -> CandidateView {
    CandidateView { browser_id: s.browser_id@, profile_id: Some(s.profile_id@), kind }
}

/// The candidate that a preferring rule falls back to, where its scope
/// allows one and a session is active.
pub open spec fn fallback_spec(rule: RouteRule, runtime: RuntimeSnapshot) -> Option<CandidateView> {
    match rule.fallback_scope {
        FallbackScope::NoFallback => None,
        FallbackScope::SameBrowser => match rule.target.browser_id {
            Some(b) => match most_recent(runtime.sessions@, Some(b@)) {
                Some(i) => Some(
                    session_candidate(runtime.sessions@[i], CandidateKind::ActiveInBrowser),
                ),
                None => None,
            },
            None => None,
        },
        FallbackScope::AnyActiveBrowser => match most_recent(runtime.sessions@, None) {
            Some(i) => Some(session_candidate(runtime.sessions@[i], CandidateKind::GloballyActive)),
            None => None,
        },
    }
}

/// The decision to open the link in the given candidates under `rule`,
/// naming `matched` as the rule that matched.
pub open spec fn open_view_naming(matched: Option<Seq<char>>, rule: RouteRule, candidates: Seq<CandidateView>) -> DecisionView {
    DecisionView {
        matched_rule_id: matched,
        candidates,
        unavailable_action: rule.unavailable_action,
        final_action: FinalAction::Open,
        reason: ReasonView::MatchedRule(rule.id@),
    }
}

/// The decision to open the link in the given candidates under `rule`.
pub open spec fn open_view(rule: RouteRule, candidates: Seq<CandidateView>) -> DecisionView {
    open_view_naming(Some(rule.id@), rule, candidates)
}

/// The decision under `rule` with the given candidates and action, naming
/// `matched` as the rule that matched.
pub open spec fn rule_view_naming(matched: Option<Seq<char>>, rule: RouteRule, candidates: Seq<CandidateView>, action: FinalAction) -> DecisionView {
    DecisionView {
        matched_rule_id: matched,
        candidates,
        unavailable_action: rule.unavailable_action,
        final_action: action,
        reason: ReasonView::MatchedRule(rule.id@),
    }
}

/// The decision under `rule` with the given candidates and action.
pub open spec fn rule_view(rule: RouteRule, candidates: Seq<CandidateView>, action: FinalAction) -> DecisionView {
    rule_view_naming(Some(rule.id@), rule, candidates, action)
}

/// The decision when `rule`'s target is unavailable, naming `matched` as
/// the rule that matched: `create` is the candidate for opening the target
/// anew, where there is one.
pub open spec fn unavailable_view_naming(matched: Option<Seq<char>>, rule: RouteRule, create: Option<CandidateView>) -> DecisionView {
    match rule.unavailable_action {
        UnavailableAction::OpenTargetProfile => match create {
            Some(c) => rule_view_naming(
                matched,
                rule,
                seq![CandidateView { kind: CandidateKind::SpecifiedProfile, ..c }],
                FinalAction::Open,
            ),
            None => rule_view_naming(matched, rule, Seq::empty(), FinalAction::Ask),
        },
        UnavailableAction::CreateTargetWindow => match create {
            Some(c) => rule_view_naming(matched, rule, seq![c], FinalAction::Open),
            None => rule_view_naming(matched, rule, Seq::empty(), FinalAction::Ask),
        },
        UnavailableAction::Ask => rule_view_naming(matched, rule, Seq::empty(), FinalAction::Ask),
        UnavailableAction::Fail => rule_view_naming(matched, rule, Seq::empty(), FinalAction::Fail),
    }
}

/// The decision when `rule`'s target is unavailable: `create` is the
/// candidate for opening the target anew, where there is one.
pub open spec fn unavailable_view(rule: RouteRule, create: Option<CandidateView>) -> DecisionView {
    unavailable_view_naming(Some(rule.id@), rule, create)
}

/// The decision that `rule` gives with the observed sessions.
pub open spec fn rule_decision(rule: RouteRule, runtime: RuntimeSnapshot) -> DecisionView {
    let ss = runtime.sessions@;
    match rule.target.mode {
        TargetMode::Ask => DecisionView {
            matched_rule_id: Some(rule.id@),
            candidates: Seq::empty(),
            unavailable_action: UnavailableAction::Ask,
            final_action: FinalAction::Ask,
            reason: ReasonView::MatchedRule(rule.id@),
        },
        TargetMode::SpecifiedProfile => {
            let b = rule.target.browser_id->0@;
            let p = rule.target.profile_id->0@;
            let new_window = CandidateView {
                browser_id: b,
                profile_id: Some(p),
                kind: CandidateKind::NewTargetWindow,
            };
            if first_session(ss, Some(b), Some(p)) is Some {
                open_view(
                    rule,
                    seq![
                        CandidateView {
                            browser_id: b,
                            profile_id: Some(p),
                            kind: CandidateKind::SpecifiedProfile,
                        },
                    ],
                )
            } else {
                match rule.enforcement {
                    Enforcement::Force => unavailable_view(rule, Some(new_window)),
                    Enforcement::Prefer => match fallback_spec(rule, runtime) {
                        Some(c) => open_view(rule, seq![c]),
                        None => unavailable_view(rule, Some(new_window)),
                    },
                }
            }
        },
        TargetMode::BrowserDefault => open_view(
            rule,
            seq![
                CandidateView {
                    browser_id: rule.target.browser_id->0@,
                    profile_id: None,
                    kind: CandidateKind::BrowserDefault,
                },
            ],
        ),
        TargetMode::ActiveInBrowser => match most_recent(ss, Some(rule.target.browser_id->0@)) {
            Some(i) => open_view(rule, seq![session_candidate(ss[i], CandidateKind::ActiveInBrowser)]),
            None => unavailable_view(rule, None),
        },
        TargetMode::GloballyActive => match most_recent(ss, None) {
            Some(i) => open_view(rule, seq![session_candidate(ss[i], CandidateKind::GloballyActive)]),
            None => unavailable_view(rule, None),
        },
    }
}

/// The decision when no rule matches but the link came from a browser
/// identity: reopen it there when a session of it is available, else ask.
pub open spec fn builtin_decision(identity: IdentityRef, runtime: RuntimeSnapshot) -> DecisionView {
    match first_session(runtime.sessions@, Some(identity.browser_id@), Some(identity.profile_id@)) {
        Some(i) => DecisionView {
            matched_rule_id: None,
            candidates: seq![session_candidate(runtime.sessions@[i], CandidateKind::SpecifiedProfile)],
            unavailable_action: UnavailableAction::Ask,
            final_action: FinalAction::Open,
            reason: ReasonView::BuiltInSameBrowser,
        },
        None => ask_view(ReasonView::BuiltInSameBrowser),
    }
}

/// The routing decision for a link: paused routing and "ask next" ask;
/// a scheme other than http(s) or a host that does not normalize fails;
/// otherwise the chosen rule decides, else the source identity, else ask.
pub open spec fn decision_spec(ctx: RouteContext, config: RouterConfig, runtime: RuntimeSnapshot) -> DecisionView {
    decision_for(ctx.url, ctx.source_app@, ctx.ask_next, ctx.paused, config, runtime)
}

/// The decision for a link from `source`, given whether routing is paused
/// and whether the next link must be asked about.
pub open spec fn decision_for(
    url: WebUrl,
    source: Seq<char>,
    ask_next: bool,
    paused: bool,
    config: RouterConfig,
    runtime: RuntimeSnapshot,
) -> DecisionView {
    if paused {
        ask_view(ReasonView::Paused)
    } else if ask_next {
        ask_view(ReasonView::AskNext)
    } else if !is_web_scheme(url.scheme_text()) {
        fail_view(ReasonView::UnsupportedScheme)
    } else {
        match host_spec(url) {
            None => fail_view(ReasonView::InvalidUrl),
            Some(host) => match best_rule(config.rules@, source, host) {
                Some(i) => rule_decision(config.rules@[i], runtime),
                None => match runtime.source_identity {
                    Some(identity) => builtin_decision(identity, runtime),
                    None => ask_view(ReasonView::NoMatchingRule),
                },
            },
        }
    }
}

/// Whether the rule that routing would use names the browser (and profile)
/// its target mode needs; the engine relies on it for that rule.
pub open spec fn routable(ctx: RouteContext, config: RouterConfig) -> bool {
    routable_for(ctx.url, ctx.source_app@, ctx.ask_next, ctx.paused, config)
}

/// `routable`, for a link from `source` in the given router state.
pub open spec fn routable_for(url: WebUrl, source: Seq<char>, ask_next: bool, paused: bool, config: RouterConfig) -> bool {
    !paused && !ask_next && is_web_scheme(url.scheme_text()) && host_spec(url) is Some ==> match best_rule(
        config.rules@,
        source,
        host_spec(url)->0,
    ) {
        Some(i) => config.rules@[i].target_complete(),
        None => true,
    }
}

// ---------------------------------------------------------------------------
// The engine.
// ---------------------------------------------------------------------------

/// A routing engine decides where a link goes.
pub trait RouteEngine {
    fn decide(&self, context: &RouteContext, config: &RouterConfig, runtime: &RuntimeSnapshot) -> RouteDecision
        requires
            routable(*context, *config),
    ;
}

/// The engine that applies the configured rules.
#[derive(Debug, Default)]
pub struct DefaultRouteEngine;

impl DefaultRouteEngine {
    pub fn new() -> (r: Self) {
        DefaultRouteEngine
    }

    /// Decides where the link goes; nothing where the rule that routing
    /// would use lacks the browser or profile its target mode needs.
    pub fn try_decide(&self, context: &RouteContext, config: &RouterConfig, runtime: &RuntimeSnapshot) -> (r: Option<RouteDecision>)
        ensures
            routable(*context, *config) ==> (r matches Some(d) && d@ == decision_spec(
                *context,
                *config,
                *runtime,
            )),
            !routable(*context, *config) ==> r is None,
    {
        if context.paused || context.ask_next {
            return Some(self.decide(context, config, runtime));
        }
        let scheme = crate::text::to_ascii_lower(context.url.scheme());
        if !is_http_text(scheme.as_str()) {
            return Some(self.decide(context, config, runtime));
        }
        let host = match normalize_host(&context.url) {
            Some(h) => h,
            None => return Some(self.decide(context, config, runtime)),
        };
        match find_matching_rule(config, context.source_app.as_str(), host.as_str()) {
            Some(i) => {
                if !target_complete(&config.rules[i]) {
                    return None;
                }
            },
            None => {},
        }
        Some(self.decide(context, config, runtime))
    }
}

impl RouteEngine for DefaultRouteEngine {
    /// Decides where the link goes (see `decision_spec`).
    fn decide(&self, context: &RouteContext, config: &RouterConfig, runtime: &RuntimeSnapshot) -> (r: RouteDecision)
        ensures
            r@ == decision_spec(*context, *config, *runtime),
    {
        if context.paused {
            return RouteDecision::ask(DecisionReason::Paused);
        }
        if context.ask_next {
            return RouteDecision::ask(DecisionReason::AskNext);
        }
        let scheme = crate::text::to_ascii_lower(context.url.scheme());
        if !is_http_text(scheme.as_str()) {
            return RouteDecision::fail(DecisionReason::UnsupportedScheme);
        }
        let host = match normalize_host(&context.url) {
            Some(h) => h,
            None => return RouteDecision::fail(DecisionReason::InvalidUrl),
        };
        match find_matching_rule(config, context.source_app.as_str(), host.as_str()) {
            Some(i) => {
                return decide_from_rule(&config.rules[i], runtime);
            },
            None => {},
        }
        match &runtime.source_identity {
            Some(identity) => decide_builtin_same_browser(identity, runtime),
            None => RouteDecision::ask(DecisionReason::NoMatchingRule),
        }
    }
}

/// Whether a lower-cased scheme is `http` or `https`.
fn is_http_text(scheme: &str) -> (r: bool)
    ensures
        r == (scheme@ == "http"@ || scheme@ == "https"@),
{
    crate::text::text_eq(scheme, "http") || crate::text::text_eq(scheme, "https")
}

/// Whether the rule names what its target mode needs.
fn target_complete(rule: &RouteRule) -> (r: bool)
    ensures
        r == rule.target_complete(),
{
    match rule.target.mode {
        TargetMode::SpecifiedProfile => rule.target.browser_id.is_some()
            && rule.target.profile_id.is_some(),
        TargetMode::BrowserDefault => rule.target.browser_id.is_some(),
        TargetMode::ActiveInBrowser => rule.target.browser_id.is_some(),
        _ => true,
    }
}

/// The link's host in normalized form.
fn normalize_host(url: &WebUrl) -> (r: Option<String>)
    ensures
        match host_spec(*url) {
            Some(h) => r matches Some(s) && s@ == h,
            None => r is None,
        },
{
    let host = match url.host_str() {
        Some(h) => h,
        None => return None,
    };
    match Domain::normalize(host) {
        Ok(d) => Some(d.into_inner()),
        Err(_) => None,
    }
}

/// The index of the rule that routes a link from `source_app` to `host`.
fn find_matching_rule(config: &RouterConfig, source_app: &str, host: &str) -> (r: Option<usize>)
    ensures
        opt_index(r) == best_rule(config.rules@, source_app@, host@),
        r matches Some(i) ==> i < config.rules@.len(),
{
    let mut best: Option<usize> = None;
    let mut i: usize = 0;
    while i < config.rules.len()
        invariant
            i <= config.rules@.len(),
            opt_index(best) == best_rule_upto(config.rules@, source_app@, host@, i as int),
            best matches Some(b) ==> b < i,
        decreases config.rules.len() - i,
    {
        let rule = &config.rules[i];
        if rule.enabled && rule_matches(rule, source_app, host) {
            let better = match best {
                None => true,
                Some(b) => key_less_exec(rule, &config.rules[b]),
            };
            if better {
                best = Some(i);
            }
        }
        i = i + 1;
    }
    best
}

/// Whether rule `a` takes precedence over rule `b`.
fn key_less_exec(a: &RouteRule, b: &RouteRule) -> (r: bool)
    ensures
        r == key_less(*a, *b),
{
    let ta = matcher_tier(&a.matcher);
    let tb = matcher_tier(&b.matcher);
    if ta != tb {
        return ta < tb;
    }
    if a.order != b.order {
        return a.order < b.order;
    }
    crate::text::text_less(a.id.as_str(), b.id.as_str())
}

/// The precedence tier of a matcher.
fn matcher_tier(matcher: &RuleMatcher) -> (r: u8)
    ensures
        r == tier_spec(*matcher),
{
    let has_source_app = match &matcher.source_app {
        Some(values) => !values.is_empty(),
        None => false,
    };
    let has_domain = match &matcher.domain {
        Some(values) => !values.is_empty(),
        None => false,
    };
    if has_source_app && has_domain {
        0
    } else if has_domain {
        1
    } else if has_source_app {
        2
    } else {
        3
    }
}

/// Whether the rule matches a link from `source_app` to `host`: each
/// non-empty list must hold a value that matches.
pub fn rule_matches(rule: &RouteRule, source_app: &str, host: &str) -> (r: bool)
    ensures
        r == rule_matches_spec(*rule, source_app@, host@),
{
    match &rule.matcher.source_app {
        Some(apps) => {
            if !apps.is_empty() {
                let items = apps.iter();
                let mut found = false;
                let mut k: usize = 0;
                while k < items.len()
                    invariant
                        items@.len() == apps.items().len(),
                        forall|j: int| 0 <= j < items@.len() ==> *items@[j] == apps.items()[j],
                        k <= items@.len(),
                        found == exists|j: int| 0 <= j < k && (#[trigger] apps.items()[j])@ == source_app@,
                    decreases items.len() - k,
                {
                    if crate::text::text_eq(items[k].as_str(), source_app) {
                        found = true;
                    }
                    k = k + 1;
                }
                if !found {
                    return false;
                }
            }
        },
        None => {},
    }
    match &rule.matcher.domain {
        Some(patterns) => {
            if !patterns.is_empty() {
                let items = patterns.iter();
                let mut found = false;
                let mut k: usize = 0;
                while k < items.len()
                    invariant
                        items@.len() == patterns.items().len(),
                        forall|j: int| 0 <= j < items@.len() ==> *items@[j] == patterns.items()[j],
                        k <= items@.len(),
                        found == exists|j: int| 0 <= j < k && (#[trigger] patterns.items()[j]).matches_spec(host@),
                    decreases items.len() - k,
                {
                    if items[k].matches(host) {
                        found = true;
                    }
                    k = k + 1;
                }
                if !found {
                    return false;
                }
            }
        },
        None => {},
    }
    true
}

/// A candidate for the session's identity.
fn candidate_for(session: &BrowserSession, kind: CandidateKind) -> (r: OpenCandidate)
    ensures
        r@ == session_candidate(*session, kind),
{
    OpenCandidate {
        browser_id: session.browser_id.clone(),
        profile_id: Some(session.profile_id.clone()),
        kind,
    }
}

/// The decision that `rule` gives with the observed sessions.
fn decide_from_rule(rule: &RouteRule, runtime: &RuntimeSnapshot) -> (r: RouteDecision)
    requires
        rule.target_complete(),
    ensures
        r@ == rule_decision(*rule, *runtime),
{
    match rule.target.mode {
        TargetMode::Ask => {
            let r = RouteDecision {
                matched_rule_id: Some(rule.id.clone()),
                candidates: Vec::new(),
                unavailable_action: UnavailableAction::Ask,
                final_action: FinalAction::Ask,
                reason: DecisionReason::MatchedRule(rule.id.clone()),
            };
            assert(r@ =~= rule_decision(*rule, *runtime));
            r
        },
        TargetMode::SpecifiedProfile => {
            let browser_id = match &rule.target.browser_id {
                Some(b) => b.clone(),
                None => vstd::pervasive::unreached(),
            };
            let profile_id = match &rule.target.profile_id {
                Some(p) => p.clone(),
                None => vstd::pervasive::unreached(),
            };
            if find_session(runtime, Some(&browser_id), Some(&profile_id)).is_some() {
                let candidate = specified_candidate(browser_id, Some(profile_id));
                let mut cs: Vec<OpenCandidate> = Vec::new();
                cs.push(candidate);
                return open(Some(rule.id.clone()), cs, rule);
            }
            match rule.enforcement {
                Enforcement::Force => {
                    let c = new_window_candidate(browser_id, profile_id);
                    unavailable(rule, Some(rule.id.clone()), Some(c))
                },
                Enforcement::Prefer => {
                    match resolve_fallback(rule, runtime) {
                        Some(fallback) => {
                            let mut cs: Vec<OpenCandidate> = Vec::new();
                            cs.push(fallback);
                            open(Some(rule.id.clone()), cs, rule)
                        },
                        None => {
                            let c = new_window_candidate(browser_id, profile_id);
                            unavailable(rule, Some(rule.id.clone()), Some(c))
                        },
                    }
                },
            }
        },
        TargetMode::BrowserDefault => {
            let browser_id = match &rule.target.browser_id {
                Some(b) => b.clone(),
                None => vstd::pervasive::unreached(),
            };
            let mut cs: Vec<OpenCandidate> = Vec::new();
            cs.push(
                OpenCandidate { browser_id, profile_id: None, kind: CandidateKind::BrowserDefault },
            );
            open(Some(rule.id.clone()), cs, rule)
        },
        TargetMode::ActiveInBrowser => {
            let browser_id = match &rule.target.browser_id {
                Some(b) => b,
                None => vstd::pervasive::unreached(),
            };
            match most_recent_available_session(runtime, Some(browser_id)) {
                Some(i) => {
                    let mut cs: Vec<OpenCandidate> = Vec::new();
                    cs.push(candidate_for(&runtime.sessions[i], CandidateKind::ActiveInBrowser));
                    open(Some(rule.id.clone()), cs, rule)
                },
                None => unavailable(rule, Some(rule.id.clone()), None),
            }
        },
        TargetMode::GloballyActive => {
            match most_recent_available_session(runtime, None) {
                Some(i) => {
                    let mut cs: Vec<OpenCandidate> = Vec::new();
                    cs.push(candidate_for(&runtime.sessions[i], CandidateKind::GloballyActive));
                    open(Some(rule.id.clone()), cs, rule)
                },
                None => unavailable(rule, Some(rule.id.clone()), None),
            }
        },
    }
}

/// Reopens the link in the identity it came from when a session of that
/// identity is available; asks otherwise.
fn decide_builtin_same_browser(identity: &IdentityRef, runtime: &RuntimeSnapshot) -> (r: RouteDecision)
    ensures
        r@ == builtin_decision(*identity, *runtime),
{
    match find_session(runtime, Some(&identity.browser_id), Some(&identity.profile_id)) {
        Some(i) => {
            let session = &runtime.sessions[i];
            let candidate = specified_candidate(
                session.browser_id.clone(),
                Some(session.profile_id.clone()),
            );
            let mut cs: Vec<OpenCandidate> = Vec::new();
            cs.push(candidate);
            let r = RouteDecision {
                matched_rule_id: None,
                candidates: cs,
                unavailable_action: UnavailableAction::Ask,
                final_action: FinalAction::Open,
                reason: DecisionReason::BuiltInSameBrowser,
            };
            assert(r@ =~= builtin_decision(*identity, *runtime));
            r
        },
        None => RouteDecision::ask(DecisionReason::BuiltInSameBrowser),
    }
}

/// The candidate that a preferring rule falls back to.
fn resolve_fallback(rule: &RouteRule, runtime: &RuntimeSnapshot) -> (r: Option<OpenCandidate>)
    ensures
        match fallback_spec(*rule, *runtime) {
            Some(c) => r matches Some(x) && x@ == c,
            None => r is None,
        },
{
    match rule.fallback_scope {
        FallbackScope::NoFallback => None,
        FallbackScope::SameBrowser => {
            let browser_id = match &rule.target.browser_id {
                Some(b) => b,
                None => return None,
            };
            match most_recent_available_session(runtime, Some(browser_id)) {
                Some(i) => Some(candidate_for(&runtime.sessions[i], CandidateKind::ActiveInBrowser)),
                None => None,
            }
        },
        FallbackScope::AnyActiveBrowser => {
            match most_recent_available_session(runtime, None) {
                Some(i) => Some(candidate_for(&runtime.sessions[i], CandidateKind::GloballyActive)),
                None => None,
            }
        },
    }
}

/// The text of an optional browser identifier.
pub open spec fn opt_browser_text(b: Option<&BrowserId>) -> Option<Seq<char>> {
    match b {
        Some(x) => Some(x@),
        None => None,
    }
}

/// The text of an optional profile identifier.
pub open spec fn opt_profile_text(p: Option<&ProfileId>) -> Option<Seq<char>> {
    match p {
        Some(x) => Some(x@),
        None => None,
    }
}

/// Whether an optional identifier allows the given one: none given, or equal.
fn id_allows(want: Option<&BrowserId>, have: &BrowserId) -> (r: bool)
    ensures
        r == (opt_browser_text(want) matches Some(w) ==> have@ == w),
{
    match want {
        Some(w) => *w == *have,
        None => true,
    }
}

/// Whether an optional profile identifier allows the given one.
fn profile_allows(want: Option<&ProfileId>, have: &ProfileId) -> (r: bool)
    ensures
        r == (opt_profile_text(want) matches Some(w) ==> have@ == w),
{
    match want {
        Some(w) => *w == *have,
        None => true,
    }
}

/// The index of the first session that can take links and belongs to the
/// given browser and profile.
fn find_session(runtime: &RuntimeSnapshot, browser_id: Option<&BrowserId>, profile_id: Option<&ProfileId>) -> (r: Option<usize>)
    ensures
        opt_index(r) == first_session(
            runtime.sessions@,
            opt_browser_text(browser_id),
            opt_profile_text(profile_id),
        ),
        r matches Some(i) ==> i < runtime.sessions@.len(),
{
    let ghost b = opt_browser_text(browser_id);
    let ghost p = opt_profile_text(profile_id);
    let mut i: usize = 0;
    while i < runtime.sessions.len()
        invariant
            i <= runtime.sessions@.len(),
            b == opt_browser_text(browser_id),
            p == opt_profile_text(profile_id),
            first_session_upto(runtime.sessions@, b, p, i as int) is None,
        decreases runtime.sessions.len() - i,
    {
        let s = &runtime.sessions[i];
        if s.is_available() && id_allows(browser_id, &s.browser_id) && profile_allows(
            profile_id,
            &s.profile_id,
        ) {
            assert(first_session_upto(runtime.sessions@, b, p, i + 1) == Some(i as int));
            proof {
                lemma_first_session_stays(runtime.sessions@, b, p, i + 1, runtime.sessions@.len() as int);
            }
            return Some(i);
        }
        i = i + 1;
    }
    None
}

/// Once a fitting session is found, later sessions do not change it.
proof fn lemma_first_session_stays(ss: Seq<BrowserSession>, b: Option<Seq<char>>, p: Option<Seq<char>>, m: int, n: int)
    requires
        0 <= m <= n,
        first_session_upto(ss, b, p, m) is Some,
    ensures
        first_session_upto(ss, b, p, n) == first_session_upto(ss, b, p, m),
    decreases n - m,
{
    if m < n {
        lemma_first_session_stays(ss, b, p, m, n - 1);
    }
}

/// The index of the most recently activated session that can take links
/// (of the given browser, where given); the last of equals.
fn most_recent_available_session(runtime: &RuntimeSnapshot, browser_id: Option<&BrowserId>) -> (r: Option<usize>)
    ensures
        opt_index(r) == most_recent(runtime.sessions@, opt_browser_text(browser_id)),
        r matches Some(i) ==> i < runtime.sessions@.len(),
{
    let ghost b = opt_browser_text(browser_id);
    let mut best: Option<usize> = None;
    let mut i: usize = 0;
    while i < runtime.sessions.len()
        invariant
            i <= runtime.sessions@.len(),
            b == opt_browser_text(browser_id),
            opt_index(best) == most_recent_upto(runtime.sessions@, b, i as int),
            best matches Some(k) ==> k < i && runtime.sessions@[k as int].last_user_activation is Some,
        decreases runtime.sessions.len() - i,
    {
        let s = &runtime.sessions[i];
        if s.is_available() && id_allows(browser_id, &s.browser_id) {
            match s.last_user_activation {
                Some(t) => {
                    let take = match best {
                        None => true,
                        Some(k) => match runtime.sessions[k].last_user_activation {
                            Some(tk) => t >= tk,
                            None => true,
                        },
                    };
                    if take {
                        best = Some(i);
                    }
                },
                None => {},
            }
        }
        i = i + 1;
    }
    best
}

/// A candidate for the named identity, as the rule specifies it.
fn specified_candidate(browser_id: BrowserId, profile_id: Option<ProfileId>) -> (r: OpenCandidate)
    ensures
        r@ == (CandidateView {
            browser_id: browser_id@,
            profile_id: crate::routing::opt_profile(profile_id),
            kind: CandidateKind::SpecifiedProfile,
        }),
{
    OpenCandidate { browser_id, profile_id, kind: CandidateKind::SpecifiedProfile }
}

/// A candidate for opening the named identity in a new window.
fn new_window_candidate(browser_id: BrowserId, profile_id: ProfileId) -> (r: OpenCandidate)
    ensures
        r@ == (CandidateView {
            browser_id: browser_id@,
            profile_id: Some(profile_id@),
            kind: CandidateKind::NewTargetWindow,
        }),
{
    OpenCandidate { browser_id, profile_id: Some(profile_id), kind: CandidateKind::NewTargetWindow }
}

/// The decision to open the link in the given candidates under `rule`.
fn open(matched: Option<RuleId>, candidates: Vec<OpenCandidate>, rule: &RouteRule) -> (r: RouteDecision)
    ensures
        r@ == open_view_naming(
            crate::routing::opt_rule(matched),
            *rule,
            candidates@.map_values(|c: OpenCandidate| c@),
        ),
{
    let r = RouteDecision {
        matched_rule_id: matched,
        candidates,
        unavailable_action: rule.unavailable_action,
        final_action: FinalAction::Open,
        reason: DecisionReason::MatchedRule(rule.id.clone()),
    };
    assert(r@ =~= open_view_naming(
        crate::routing::opt_rule(matched),
        *rule,
        candidates@.map_values(|c: OpenCandidate| c@),
    ));
    r
}

/// The view of an optional candidate.
pub open spec fn opt_candidate(c: Option<OpenCandidate>) -> Option<CandidateView> {
    match c {
        Some(x) => Some(x@),
        None => None,
    }
}

/// The decision when `rule`'s target is unavailable.
fn unavailable(rule: &RouteRule, matched: Option<RuleId>, create: Option<OpenCandidate>) -> (r: RouteDecision)
    ensures
        r@ == unavailable_view_naming(crate::routing::opt_rule(matched), *rule, opt_candidate(create)),
{
    let ghost create_view = opt_candidate(create);
    let (candidates, action): (Vec<OpenCandidate>, FinalAction) = match rule.unavailable_action {
        UnavailableAction::OpenTargetProfile => match create {
            Some(mut candidate) => {
                candidate.kind = CandidateKind::SpecifiedProfile;
                let mut cs: Vec<OpenCandidate> = Vec::new();
                cs.push(candidate);
                (cs, FinalAction::Open)
            },
            None => (Vec::new(), FinalAction::Ask),
        },
        UnavailableAction::CreateTargetWindow => match create {
            Some(candidate) => {
                let mut cs: Vec<OpenCandidate> = Vec::new();
                cs.push(candidate);
                (cs, FinalAction::Open)
            },
            None => (Vec::new(), FinalAction::Ask),
        },
        UnavailableAction::Ask => (Vec::new(), FinalAction::Ask),
        UnavailableAction::Fail => (Vec::new(), FinalAction::Fail),
    };
    let r = RouteDecision {
        matched_rule_id: matched,
        candidates,
        unavailable_action: rule.unavailable_action,
        final_action: action,
        reason: DecisionReason::MatchedRule(rule.id.clone()),
    };
    assert(r@.candidates =~= unavailable_view_naming(
        crate::routing::opt_rule(matched),
        *rule,
        create_view,
    ).candidates);
    r
}

} // verus!
