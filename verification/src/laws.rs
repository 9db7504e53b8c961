//! Properties of routing decisions that hold for every configuration and
//! every set of observed sessions.

use vstd::prelude::*;

use crate::browser::BrowserSession;
use crate::config::{
    Enforcement, FallbackScope, RouteRule, RuleProblem, RouterConfig, RuleMatcher, TargetMode,
    UnavailableAction,
};
use crate::engine::{
    activation, best_rule, best_rule_upto, decision_spec, eligible_rule, first_session,
    first_session_upto, host_spec, is_web_scheme, key_less, most_recent, most_recent_upto,
    recent_candidate, routable, rule_decision, session_fits, tier_spec,
};
use crate::routing::{CandidateKind, FinalAction, ReasonView, RouteContext, RuntimeSnapshot};
use crate::text::{
    lemma_seq_less_asymmetric, lemma_seq_less_irreflexive, lemma_seq_less_total,
    lemma_seq_less_transitive,
};

verus! {

/// Two rules with the same precedence: tier, order and identifier.
pub open spec fn same_key(a: RouteRule, b: RouteRule) -> bool {
    tier_spec(a.matcher) == tier_spec(b.matcher) && a.order == b.order && a.id@ == b.id@
}

proof fn lemma_key_transitive(a: RouteRule, b: RouteRule, c: RouteRule)
    requires
        key_less(a, b),
        key_less(b, c),
    ensures
        key_less(a, c),
{
    if tier_spec(a.matcher) == tier_spec(b.matcher) && tier_spec(b.matcher) == tier_spec(c.matcher)
        && a.order == b.order && b.order == c.order {
        lemma_seq_less_transitive(a.id@, b.id@, c.id@);
    }
}

proof fn lemma_key_total(a: RouteRule, b: RouteRule)
    ensures
        key_less(a, b) || key_less(b, a) || same_key(a, b),
{
    lemma_seq_less_total(a.id@, b.id@);
}

proof fn lemma_best_rule_upto(rules: Seq<RouteRule>, app: Seq<char>, host: Seq<char>, n: int)
    requires
        0 <= n <= rules.len(),
    ensures
        match best_rule_upto(rules, app, host, n) {
            Some(i) => 0 <= i < n && eligible_rule(rules[i], app, host) && forall|j: int|
                0 <= j < n && j != i && eligible_rule(#[trigger] rules[j], app, host) ==> key_less(
                    rules[i],
                    rules[j],
                ) || (i < j && same_key(rules[i], rules[j])),
            None => forall|j: int| 0 <= j < n ==> !eligible_rule(#[trigger] rules[j], app, host),
        },
    decreases n,
{
    if n > 0 {
        lemma_best_rule_upto(rules, app, host, n - 1);
        let prev = best_rule_upto(rules, app, host, n - 1);
        let x = rules[n - 1];
        if eligible_rule(x, app, host) && (prev is None || key_less(x, rules[prev->0])) {
            if let Some(p) = prev {
                assert forall|j: int|
                    0 <= j < n && j != n - 1 && eligible_rule(#[trigger] rules[j], app, host) implies key_less(
                    x,
                    rules[j],
                ) by {
                    if j != p {
                        if key_less(rules[p], rules[j]) {
                            lemma_key_transitive(x, rules[p], rules[j]);
                        }
                    }
                }
            }
        } else if let Some(p) = prev {
            if eligible_rule(x, app, host) {
                lemma_key_total(x, rules[p]);
            }
        }
    }
}

/// The rule that routing uses is enabled and matches; it takes precedence
/// over every other enabled matching rule, by tier (both fields, domain,
/// source application, neither), then `order`, then identifier; of rules
/// with equal precedence the first in the configuration wins. Where no
/// enabled rule matches, none is used.
pub proof fn law_chosen_rule_has_precedence(rules: Seq<RouteRule>, app: Seq<char>, host: Seq<char>)
    ensures
        match best_rule(rules, app, host) {
            Some(i) => 0 <= i < rules.len() && eligible_rule(rules[i], app, host) && forall|j: int|
                0 <= j < rules.len() && j != i && eligible_rule(#[trigger] rules[j], app, host)
                    ==> key_less(rules[i], rules[j]) || (i < j && same_key(rules[i], rules[j])),
            None => forall|j: int|
                0 <= j < rules.len() ==> !eligible_rule(#[trigger] rules[j], app, host),
        },
{
    lemma_best_rule_upto(rules, app, host, rules.len() as int);
}

proof fn lemma_most_recent_upto(ss: Seq<BrowserSession>, b: Option<Seq<char>>, n: int)
    requires
        0 <= n <= ss.len(),
    ensures
        match most_recent_upto(ss, b, n) {
            Some(i) => 0 <= i < n && recent_candidate(ss[i], b) && forall|j: int|
                0 <= j < n && recent_candidate(#[trigger] ss[j], b) ==> activation(ss[j])
                    < activation(ss[i]) || (activation(ss[j]) == activation(ss[i]) && j <= i),
            None => forall|j: int| 0 <= j < n ==> !recent_candidate(#[trigger] ss[j], b),
        },
    decreases n,
{
    if n > 0 {
        lemma_most_recent_upto(ss, b, n - 1);
    }
}

/// The session used for "active" targets is one that can take links, of
/// the wanted browser where one is wanted, with a recorded activation; no
/// such session was activated later, and of equally recent ones the last
/// is used. Where there is none, none is used.
pub proof fn law_most_recent_session(ss: Seq<BrowserSession>, b: Option<Seq<char>>)
    ensures
        match most_recent(ss, b) {
            Some(i) => 0 <= i < ss.len() && recent_candidate(ss[i], b) && forall|j: int|
                0 <= j < ss.len() && recent_candidate(#[trigger] ss[j], b) ==> activation(ss[j])
                    < activation(ss[i]) || (activation(ss[j]) == activation(ss[i]) && j <= i),
            None => forall|j: int| 0 <= j < ss.len() ==> !recent_candidate(#[trigger] ss[j], b),
        },
{
    lemma_most_recent_upto(ss, b, ss.len() as int);
}

proof fn lemma_first_session_upto(ss: Seq<BrowserSession>, b: Option<Seq<char>>, p: Option<Seq<char>>, n: int)
    requires
        0 <= n <= ss.len(),
    ensures
        match first_session_upto(ss, b, p, n) {
            Some(i) => 0 <= i < n && session_fits(ss[i], b, p) && forall|j: int|
                0 <= j < i ==> !session_fits(#[trigger] ss[j], b, p),
            None => forall|j: int| 0 <= j < n ==> !session_fits(#[trigger] ss[j], b, p),
        },
    decreases n,
{
    if n > 0 {
        lemma_first_session_upto(ss, b, p, n - 1);
    }
}

/// The session looked up for an identity is the first that can take links
/// and belongs to it; where none does, none is found.
pub proof fn law_first_fitting_session(ss: Seq<BrowserSession>, b: Option<Seq<char>>, p: Option<Seq<char>>)
    ensures
        match first_session(ss, b, p) {
            Some(i) => 0 <= i < ss.len() && session_fits(ss[i], b, p) && forall|j: int|
                0 <= j < i ==> !session_fits(#[trigger] ss[j], b, p),
            None => forall|j: int| 0 <= j < ss.len() ==> !session_fits(#[trigger] ss[j], b, p),
        },
{
    lemma_first_session_upto(ss, b, p, ss.len() as int);
}

/// A decision opens the link exactly when it proposes a candidate, and it
/// proposes at most one.
pub proof fn law_open_iff_candidate(ctx: RouteContext, config: RouterConfig, runtime: RuntimeSnapshot)
    requires
        routable(ctx, config),
    ensures
        (decision_spec(ctx, config, runtime).final_action == FinalAction::Open) <==> decision_spec(
            ctx,
            config,
            runtime,
        ).candidates.len() > 0,
        decision_spec(ctx, config, runtime).candidates.len() <= 1,
{
}

/// Paused routing and a pending "ask next" both ask the user, paused first.
pub proof fn law_paused_or_ask_next_asks(ctx: RouteContext, config: RouterConfig, runtime: RuntimeSnapshot)
    requires
        ctx.paused || ctx.ask_next,
    ensures
        decision_spec(ctx, config, runtime).final_action == FinalAction::Ask,
        decision_spec(ctx, config, runtime).candidates.len() == 0,
        decision_spec(ctx, config, runtime).reason == (if ctx.paused {
            ReasonView::Paused
        } else {
            ReasonView::AskNext
        }),
{
}

/// A link whose scheme is not http or https is refused.
pub proof fn law_non_web_scheme_fails(ctx: RouteContext, config: RouterConfig, runtime: RuntimeSnapshot)
    requires
        !ctx.paused,
        !ctx.ask_next,
        !is_web_scheme(ctx.url.scheme_text()),
    ensures
        decision_spec(ctx, config, runtime).final_action == FinalAction::Fail,
        decision_spec(ctx, config, runtime).reason == ReasonView::UnsupportedScheme,
{
}

/// When a rule routes the link, the decision names that rule, whatever it
/// ends in (open, ask or fail).
pub proof fn law_rule_decision_names_rule(rule: RouteRule, runtime: RuntimeSnapshot)
    requires
        rule.target_complete(),
    ensures
        rule_decision(rule, runtime).matched_rule_id == Some(rule.id@),
        rule_decision(rule, runtime).reason == ReasonView::MatchedRule(rule.id@),
{
}

/// When no rule matches and the link did not come from a browser identity,
/// the user is asked.
pub proof fn law_unmatched_link_asks(ctx: RouteContext, config: RouterConfig, runtime: RuntimeSnapshot)
    requires
        !ctx.paused,
        !ctx.ask_next,
        is_web_scheme(ctx.url.scheme_text()),
        host_spec(ctx.url) is Some,
        best_rule(config.rules@, ctx.source_app@, host_spec(ctx.url)->0) is None,
        runtime.source_identity is None,
    ensures
        decision_spec(ctx, config, runtime) == crate::routing::ask_view(ReasonView::NoMatchingRule),
{
}

/// A forced profile never gives way to another identity: every candidate
/// is the rule's own browser and profile.
pub proof fn law_force_keeps_identity(rule: RouteRule, runtime: RuntimeSnapshot)
    requires
        rule.target_complete(),
        rule.target.mode == TargetMode::SpecifiedProfile,
        rule.enforcement == Enforcement::Force,
    ensures
        forall|k: int|
            0 <= k < rule_decision(rule, runtime).candidates.len() ==> (#[trigger] rule_decision(
                rule,
                runtime,
            ).candidates[k]).browser_id == rule.target.browser_id->0@ && rule_decision(
                rule,
                runtime,
            ).candidates[k].profile_id == Some(rule.target.profile_id->0@),
{
}

/// A candidate for an active identity (of a browser, or globally) is the
/// identity of a session that can take links: never an incognito or
/// windowless one.
pub proof fn law_active_candidates_are_available(rule: RouteRule, runtime: RuntimeSnapshot)
    requires
        rule.target_complete(),
    ensures
        forall|k: int|
            0 <= k < rule_decision(rule, runtime).candidates.len() && ((#[trigger] rule_decision(
                rule,
                runtime,
            ).candidates[k]).kind == CandidateKind::ActiveInBrowser || rule_decision(
                rule,
                runtime,
            ).candidates[k].kind == CandidateKind::GloballyActive) ==> exists|i: int|
                0 <= i < runtime.sessions@.len() && (#[trigger] runtime.sessions@[i]).available()
                    && runtime.sessions@[i].browser_id@ == rule_decision(
                    rule,
                    runtime,
                ).candidates[k].browser_id && Some(runtime.sessions@[i].profile_id@) == rule_decision(
                    rule,
                    runtime,
                ).candidates[k].profile_id,
{
    law_most_recent_session(runtime.sessions@, None);
    if rule.target.browser_id is Some {
        law_most_recent_session(runtime.sessions@, Some(rule.target.browser_id->0@));
    }
}

/// Whether a matcher names source applications: a list that is not empty.
pub open spec fn names_apps(m: RuleMatcher) -> bool {
    m.source_app matches Some(a) && a.items().len() > 0
}

/// Whether a matcher names domains: a list that is not empty.
pub open spec fn names_domains(m: RuleMatcher) -> bool {
    m.domain matches Some(d) && d.items().len() > 0
}

/// The more a rule's matcher names, the earlier it comes, whatever the
/// rules' `order` and identifiers: a rule naming both source applications
/// and domains precedes one that does not name both; a rule naming domains
/// only precedes one naming no domain; a rule naming source applications
/// only precedes one naming neither.
pub proof fn law_specific_matchers_come_first(a: RouteRule, b: RouteRule)
    ensures
        names_apps(a.matcher) && names_domains(a.matcher) && !(names_apps(b.matcher) && names_domains(
            b.matcher,
        )) ==> key_less(a, b),
        names_domains(a.matcher) && !names_apps(a.matcher) && !names_domains(b.matcher) ==> key_less(
            a,
            b,
        ),
        names_apps(a.matcher) && !names_domains(a.matcher) && !names_apps(b.matcher) && !names_domains(
            b.matcher,
        ) ==> key_less(a, b),
        names_apps(a.matcher) == names_apps(b.matcher) && names_domains(a.matcher) == names_domains(
            b.matcher,
        ) && a.order < b.order ==> key_less(a, b) && !key_less(b, a),
        names_apps(a.matcher) == names_apps(b.matcher) && names_domains(a.matcher) == names_domains(
            b.matcher,
        ) && a.order == b.order ==> (key_less(a, b) <==> crate::text::seq_less(a.id@, b.id@)),
{
}

/// Among the enabled rules that match a link, one naming only domains
/// routes it before one naming only source applications: the latter is
/// never the rule used while the former takes part.
pub proof fn law_domain_rule_outranks_app_rule(rules: Seq<RouteRule>, app: Seq<char>, host: Seq<char>, d: int, a: int)
    requires
        0 <= d < rules.len(),
        0 <= a < rules.len(),
        eligible_rule(rules[d], app, host),
        eligible_rule(rules[a], app, host),
        names_domains(rules[d].matcher) && !names_apps(rules[d].matcher),
        names_apps(rules[a].matcher) && !names_domains(rules[a].matcher),
    ensures
        best_rule(rules, app, host) != Some(a),
{
    law_chosen_rule_has_precedence(rules, app, host);
    law_specific_matchers_come_first(rules[d], rules[a]);
    if best_rule(rules, app, host) == Some(a) {
        assert(d != a);
        assert(key_less(rules[a], rules[d]) || (a < d && same_key(rules[a], rules[d])));
        lemma_key_asymmetric_tiers(rules[d], rules[a]);
    }
}

proof fn lemma_key_asymmetric_tiers(x: RouteRule, y: RouteRule)
    requires
        tier_spec(x.matcher) < tier_spec(y.matcher),
    ensures
        !key_less(y, x),
        !same_key(y, x),
{
}

/// A rule for a named profile that prefers it, and may fall back to any
/// active browser, opens the link in the most recently activated
/// available session anywhere, as a globally active candidate, when the
/// named profile has no available session but some available session has
/// been activated.
pub proof fn law_any_active_fallback_opens_latest(rule: RouteRule, runtime: RuntimeSnapshot)
    requires
        rule.target.mode == TargetMode::SpecifiedProfile,
        rule.target.browser_id is Some,
        rule.target.profile_id is Some,
        rule.enforcement == Enforcement::Prefer,
        rule.fallback_scope == FallbackScope::AnyActiveBrowser,
        forall|k: int|
            0 <= k < runtime.sessions@.len() ==> !((#[trigger] runtime.sessions@[k]).available()
                && runtime.sessions@[k].browser_id@ == rule.target.browser_id->0@
                && runtime.sessions@[k].profile_id@ == rule.target.profile_id->0@),
        exists|k: int|
            0 <= k < runtime.sessions@.len() && (#[trigger] runtime.sessions@[k]).available()
                && runtime.sessions@[k].last_user_activation is Some,
    ensures
        rule_decision(rule, runtime).final_action == FinalAction::Open,
        rule_decision(rule, runtime).candidates.len() == 1,
        rule_decision(rule, runtime).candidates[0].kind == CandidateKind::GloballyActive,
        exists|i: int|
            0 <= i < runtime.sessions@.len() && (#[trigger] runtime.sessions@[i]).available()
                && runtime.sessions@[i].last_user_activation is Some && rule_decision(
                rule,
                runtime,
            ).candidates[0].browser_id == runtime.sessions@[i].browser_id@ && rule_decision(
                rule,
                runtime,
            ).candidates[0].profile_id == Some(runtime.sessions@[i].profile_id@) && forall|j: int|
                0 <= j < runtime.sessions@.len() && (#[trigger] runtime.sessions@[j]).available()
                    && runtime.sessions@[j].last_user_activation is Some
                    ==> runtime.sessions@[j].last_user_activation->0
                    <= runtime.sessions@[i].last_user_activation->0,
{
    let ss = runtime.sessions@;
    let b = rule.target.browser_id->0@;
    let p = rule.target.profile_id->0@;
    lemma_first_session_upto(ss, Some(b), Some(p), ss.len() as int);
    if first_session(ss, Some(b), Some(p)) is Some {
        let i = first_session(ss, Some(b), Some(p))->0;
        assert(session_fits(ss[i], Some(b), Some(p)));
        assert(!(ss[i].available() && ss[i].browser_id@ == b && ss[i].profile_id@ == p));
    }
    law_most_recent_session(ss, None);
    let k = choose|k: int| 0 <= k < ss.len() && (#[trigger] ss[k]).available() && ss[k].last_user_activation is Some;
    assert(recent_candidate(ss[k], None));
    let i = most_recent(ss, None)->0;
    assert forall|j: int|
        0 <= j < ss.len() && (#[trigger] ss[j]).available() && ss[j].last_user_activation is Some
            implies ss[j].last_user_activation->0 <= ss[i].last_user_activation->0 by {
        assert(recent_candidate(ss[j], None));
    }
    assert(ss[i].available());
}

/// A rule that asks the user, with a name that is not blank, is accepted
/// exactly when it keeps the default policy (prefer, no fallback, ask when
/// unavailable); otherwise it is refused as asking with extra targeting.
pub proof fn law_ask_rules_keep_the_default_policy(rule: RouteRule)
    requires
        rule.target.mode == TargetMode::Ask,
        !(rule.name matches Some(n) && crate::text::is_blank_spec(n@)),
    ensures
        rule.problem_spec() is None <==> (rule.enforcement == Enforcement::Prefer
            && rule.fallback_scope == FallbackScope::NoFallback && rule.unavailable_action
            == UnavailableAction::Ask),
        rule.problem_spec() is Some ==> rule.problem_spec() == Some(RuleProblem::AskHasExtraTargeting),
{
}

/// A rule for a named profile that prefers it, and may fall back to its
/// own browser, opens the link in that browser's most recently activated
/// available session, as an active-in-browser candidate, when the named
/// profile has no available session but some available session of the
/// browser has been activated. With no fallback allowed, or none found, it
/// does what the rule says to do when the profile is unavailable: here,
/// with `Ask`, it asks.
pub proof fn law_same_browser_fallback_opens_latest(rule: RouteRule, runtime: RuntimeSnapshot)
    requires
        rule.target.mode == TargetMode::SpecifiedProfile,
        rule.target.browser_id is Some,
        rule.target.profile_id is Some,
        rule.enforcement == Enforcement::Prefer,
        forall|k: int|
            0 <= k < runtime.sessions@.len() ==> !((#[trigger] runtime.sessions@[k]).available()
                && runtime.sessions@[k].browser_id@ == rule.target.browser_id->0@
                && runtime.sessions@[k].profile_id@ == rule.target.profile_id->0@),
    ensures
        rule.fallback_scope == FallbackScope::SameBrowser && (exists|k: int|
            0 <= k < runtime.sessions@.len() && (#[trigger] runtime.sessions@[k]).available()
                && runtime.sessions@[k].browser_id@ == rule.target.browser_id->0@
                && runtime.sessions@[k].last_user_activation is Some) ==> {
            let d = rule_decision(rule, runtime);
            &&& d.final_action == FinalAction::Open
            &&& d.candidates.len() == 1
            &&& d.candidates[0].kind == CandidateKind::ActiveInBrowser
            &&& d.candidates[0].browser_id == rule.target.browser_id->0@
            &&& exists|i: int|
                0 <= i < runtime.sessions@.len() && (#[trigger] runtime.sessions@[i]).available()
                    && runtime.sessions@[i].browser_id@ == rule.target.browser_id->0@
                    && runtime.sessions@[i].last_user_activation is Some
                    && d.candidates[0].profile_id == Some(runtime.sessions@[i].profile_id@)
                    && forall|j: int|
                    0 <= j < runtime.sessions@.len() && (#[trigger] runtime.sessions@[j]).available()
                        && runtime.sessions@[j].browser_id@ == rule.target.browser_id->0@
                        && runtime.sessions@[j].last_user_activation is Some
                        ==> runtime.sessions@[j].last_user_activation->0
                        <= runtime.sessions@[i].last_user_activation->0
        },
        rule.fallback_scope == FallbackScope::NoFallback && rule.unavailable_action
            == UnavailableAction::Ask ==> rule_decision(rule, runtime).final_action == FinalAction::Ask
            && rule_decision(rule, runtime).candidates.len() == 0,
{
    let ss = runtime.sessions@;
    let b = rule.target.browser_id->0@;
    let p = rule.target.profile_id->0@;
    lemma_first_session_upto(ss, Some(b), Some(p), ss.len() as int);
    if first_session(ss, Some(b), Some(p)) is Some {
        let i = first_session(ss, Some(b), Some(p))->0;
        assert(session_fits(ss[i], Some(b), Some(p)));
        assert(!(ss[i].available() && ss[i].browser_id@ == b && ss[i].profile_id@ == p));
    }
    law_most_recent_session(ss, Some(b));
    if rule.fallback_scope == FallbackScope::SameBrowser && (exists|k: int|
        0 <= k < ss.len() && (#[trigger] ss[k]).available() && ss[k].browser_id@ == b
            && ss[k].last_user_activation is Some) {
        let k = choose|k: int|
            0 <= k < ss.len() && (#[trigger] ss[k]).available() && ss[k].browser_id@ == b
                && ss[k].last_user_activation is Some;
        assert(recent_candidate(ss[k], Some(b)));
        let i = most_recent(ss, Some(b))->0;
        assert forall|j: int|
            0 <= j < ss.len() && (#[trigger] ss[j]).available() && ss[j].browser_id@ == b
                && ss[j].last_user_activation is Some implies ss[j].last_user_activation->0
            <= ss[i].last_user_activation->0 by {
            assert(recent_candidate(ss[j], Some(b)));
        }
        assert(ss[i].available());
    }
}

/// What validation refuses, whatever else the rule holds: a blank name
/// first; then an asking rule with a policy other than the default; a
/// rule for a named profile that lacks the browser or the profile, or that
/// forces the profile yet allows a fallback; a browser-default or
/// active-in-browser rule without a browser. A globally active rule with a
/// usable name is always accepted.
pub proof fn law_validation_refusals(rule: RouteRule)
    ensures
        rule.name matches Some(n) && crate::text::is_blank_spec(n@) ==> rule.problem_spec() == Some(
            RuleProblem::BlankName,
        ),
        !(rule.name matches Some(n) && crate::text::is_blank_spec(n@)) ==> {
            &&& rule.target.mode == TargetMode::SpecifiedProfile && (rule.target.browser_id is None
                || rule.target.profile_id is None) ==> rule.problem_spec() == Some(
                RuleProblem::SpecifiedProfileRequiresIdentity,
            )
            &&& rule.target.mode == TargetMode::SpecifiedProfile && rule.target.browser_id is Some
                && rule.target.profile_id is Some ==> (rule.problem_spec() is Some <==> (rule.enforcement
                == Enforcement::Force && rule.fallback_scope != FallbackScope::NoFallback))
            &&& rule.target.mode == TargetMode::SpecifiedProfile && rule.problem_spec() is Some
                && rule.target.browser_id is Some && rule.target.profile_id is Some
                ==> rule.problem_spec() == Some(RuleProblem::ForceCannotFallback)
            &&& rule.target.mode == TargetMode::BrowserDefault ==> (rule.problem_spec() is Some
                <==> rule.target.browser_id is None)
            &&& rule.target.mode == TargetMode::BrowserDefault && rule.problem_spec() is Some
                ==> rule.problem_spec() == Some(RuleProblem::BrowserDefaultRequiresBrowser)
            &&& rule.target.mode == TargetMode::ActiveInBrowser ==> (rule.problem_spec() is Some
                <==> rule.target.browser_id is None)
            &&& rule.target.mode == TargetMode::ActiveInBrowser && rule.problem_spec() is Some
                ==> rule.problem_spec() == Some(RuleProblem::ActiveInBrowserRequiresBrowser)
            &&& rule.target.mode == TargetMode::GloballyActive ==> rule.problem_spec() is None
        },
{
}

} // verus!
