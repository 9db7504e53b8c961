//! The router's state on the desktop: the configuration in use, the
//! browsers found, the browser identities observed, the links waiting for
//! the user to choose a profile, and the log of what happened to links.
//! The platform's work (reading files, launching browsers, asking the
//! system what is running) is done by the caller, which hands the results
//! to the functions here.

use vstd::prelude::*;

use crate::browser::{
    texts, BrowserCapabilities, BrowserDescriptor, BrowserProfile, BrowserSession,
    OpenDisposition, ProfileView, WindowRef,
};
use crate::browser_adapters::{open_args, BrowserAdapter};
use crate::chromium::{
    chromium_profiles, BraveAdapter, ChromeAdapter, ChromiumAdapter, EdgeAdapter, ProfileListing,
};
use crate::engine::{decision_for, routable, routable_for, RouteEngine};
use crate::firefox::{firefox_id, parse_profiles_ini_spec, FirefoxAdapter};
use crate::ids::AppId;
use crate::platform_api::BrowserOpenIntent;
use crate::routing::{RouteContext, RouteDecision};
use crate::config::{RouteRule, RouterConfig, SCHEMA_VERSION};
use crate::config_store::ConfigStoreError;
use crate::diagnostics::{keep_last, recorded_domain, route_event, DiagnosticLog, EventView};
use crate::engine::DefaultRouteEngine;
use crate::ids::{BrowserId, ProfileId};
use crate::routing::{CandidateKind, OpenCandidate, RuntimeSnapshot};
use crate::text::{decimal_spec, trim_spec};
use crate::web_url::{opt_text, WebUrl};

verus! {

/// A browser as the last scan found it.
#[derive(Debug)]
pub struct BrowserInstallation {
    pub descriptor: BrowserDescriptor,
    pub capabilities: BrowserCapabilities,
    pub installed: bool,
    pub profiles: Vec<BrowserProfile>,
    pub error: Option<String>,
}

/// A link waiting for the user to choose a profile.
#[derive(Debug)]
pub struct PendingRoute {
    pub id: u64,
    pub domain: String,
    pub source_app: String,
    pub rule_id: Option<String>,
    pub url: WebUrl,
}

/// A pending link as plain values.
pub struct PendingView {
    pub id: u64,
    pub domain: Seq<char>,
    pub source_app: Seq<char>,
    pub rule_id: Option<Seq<char>>,
    pub url: (Seq<char>, Seq<char>, Option<Seq<char>>),
}

impl View for PendingRoute {
    type V = PendingView;

    open spec fn view(&self) -> PendingView {
        PendingView {
            id: self.id,
            domain: self.domain@,
            source_app: self.source_app@,
            rule_id: opt_text(self.rule_id),
            url: self.url.parts(),
        }
    }
}

impl PendingRoute {
    /// The link.
    pub fn url(&self) -> (r: &WebUrl)
        ensures
            r.parts() == self.url.parts(),
    {
        &self.url
    }
}

/// The views of a list of pending links.
pub open spec fn pending_views(v: Seq<PendingRoute>) -> Seq<PendingView> {
    v.map_values(|p: PendingRoute| p@)
}

/// What became of a routed link.
#[derive(Debug, Clone, Copy, PartialEq, Eq, Structural)]
pub enum RouteDisposition {
    Opened,
    Ask,
    Failed,
}

/// What an imported configuration holds.
#[derive(Debug, Clone, Copy, PartialEq, Eq, Structural)]
pub struct ConfigImportPreview {
    pub schema_version: u32,
    pub rule_count: usize,
    pub enabled_rule_count: usize,
}

/// How many of the first `n` rules are enabled.
pub open spec fn enabled_upto(rules: Seq<RouteRule>, n: int) -> nat
    decreases n,
{
    if n <= 0 {
        0
    } else {
        enabled_upto(rules, n - 1) + if rules[n - 1].enabled {
            1nat
        } else {
            0nat
        }
    }
}

proof fn lemma_enabled_bounded(rules: Seq<RouteRule>, n: int)
    requires
        0 <= n <= rules.len(),
    ensures
        enabled_upto(rules, n) <= n,
    decreases n,
{
    if n > 0 {
        lemma_enabled_bounded(rules, n - 1);
    }
}

impl ConfigImportPreview {
    /// The schema version, the number of rules and of enabled rules.
    pub fn of(config: &RouterConfig) -> (r: Self)
        ensures
            r.schema_version == config.schema_version,
            r.rule_count == config.rules@.len(),
            r.enabled_rule_count == enabled_upto(config.rules@, config.rules@.len() as int),
    {
        let mut enabled: usize = 0;
        let mut i: usize = 0;
        while i < config.rules.len()
            invariant
                i <= config.rules@.len(),
                enabled == enabled_upto(config.rules@, i as int),
            decreases config.rules.len() - i,
        {
            proof {
                lemma_enabled_bounded(config.rules@, i as int);
            }
            if config.rules[i].enabled {
                enabled = enabled + 1;
            }
            i = i + 1;
        }
        ConfigImportPreview {
            schema_version: config.schema_version,
            rule_count: config.rules.len(),
            enabled_rule_count: enabled,
        }
    }
}

/// How a candidate is opened: an active profile in its active window, a
/// new target window in a new window, anything else in an existing one.
pub open spec fn disposition_for(kind: CandidateKind) -> OpenDisposition {
    match kind {
        CandidateKind::ActiveInBrowser | CandidateKind::GloballyActive => OpenDisposition::ActiveWindow,
        CandidateKind::NewTargetWindow => OpenDisposition::NewWindow,
        CandidateKind::SpecifiedProfile | CandidateKind::BrowserDefault => OpenDisposition::ExistingWindow,
    }
}

/// How a candidate is opened.
pub fn candidate_disposition(candidate: &OpenCandidate) -> (r: OpenDisposition)
    ensures
        r == disposition_for(candidate.kind),
{
    match candidate.kind {
        CandidateKind::ActiveInBrowser | CandidateKind::GloballyActive => OpenDisposition::ActiveWindow,
        CandidateKind::NewTargetWindow => OpenDisposition::NewWindow,
        CandidateKind::SpecifiedProfile | CandidateKind::BrowserDefault => OpenDisposition::ExistingWindow,
    }
}

/// The identity a diagnostic names: `<browser>/<profile>`.
pub open spec fn identity_text(browser: Seq<char>, profile: Seq<char>) -> Seq<char> {
    browser + "/"@ + profile
}

/// `<browser>/<profile>`
pub fn identity_string(browser: &str, profile: &str) -> (r: String)
    ensures
        r@ == identity_text(browser@, profile@),
{
    let mut s = String::from_str(browser);
    s.append("/");
    s.append(profile);
    s
}

/// The identity of a candidate that names a profile.
pub open spec fn candidate_identity(c: crate::routing::CandidateView) -> Option<Seq<char>> {
    match c.profile_id {
        Some(p) => Some(identity_text(c.browser_id, p)),
        None => None,
    }
}

/// The identity of a candidate that names a profile: `<browser>/<profile>`.
pub fn candidate_identity_id(candidate: &OpenCandidate) -> (r: Option<String>)
    ensures
        opt_text(r) == candidate_identity(candidate@),
{
    match &candidate.profile_id {
        Some(p) => Some(identity_string(candidate.browser_id.as_str(), p.as_str())),
        None => None,
    }
}

/// The profiles of a list of installations, browser by browser.
pub open spec fn all_profiles(browsers: Seq<BrowserInstallation>) -> Seq<ProfileView>
    decreases browsers.len(),
{
    if browsers.len() == 0 {
        Seq::empty()
    } else {
        all_profiles(browsers.drop_last()) + browsers.last().profiles@.map_values(
            |p: BrowserProfile| p@,
        )
    }
}

/// The (browser, profile) pairs that the running browsers report, in order.
pub open spec fn running_pairs(running: Seq<(BrowserId, Vec<ProfileId>)>) -> Seq<(Seq<char>, Seq<char>)>
    decreases running.len(),
{
    if running.len() == 0 {
        Seq::empty()
    } else {
        running_pairs(running.drop_last()) + running.last().1@.map_values(
            |p: ProfileId| (running.last().0@, p@),
        )
    }
}

/// The open profiles kept from the first `n` pairs: those a scan found,
/// each once, in order.
pub open spec fn kept_pairs(
    pairs: Seq<(Seq<char>, Seq<char>)>,
    browsers: Seq<BrowserInstallation>,
    n: int,
) -> Seq<(Seq<char>, Seq<char>)>
    decreases n,
{
    if n <= 0 {
        Seq::empty()
    } else {
        let prev = kept_pairs(pairs, browsers, n - 1);
        let x = pairs[n - 1];
        if discovered(browsers, x.0, x.1) && !prev.contains(x) {
            prev.push(x)
        } else {
            prev
        }
    }
}

proof fn lemma_kept_prefix(
    a: Seq<(Seq<char>, Seq<char>)>,
    b: Seq<(Seq<char>, Seq<char>)>,
    browsers: Seq<BrowserInstallation>,
    n: int,
)
    requires
        0 <= n <= a.len(),
        n <= b.len(),
        forall|k: int| 0 <= k < n ==> a[k] == b[k],
    ensures
        kept_pairs(a, browsers, n) == kept_pairs(b, browsers, n),
    decreases n,
{
    if n > 0 {
        lemma_kept_prefix(a, b, browsers, n - 1);
    }
}

/// Every kept pair was found by a scan.
pub proof fn law_kept_pairs_were_discovered(
    pairs: Seq<(Seq<char>, Seq<char>)>,
    browsers: Seq<BrowserInstallation>,
    n: int,
)
    ensures
        forall|k: int|
            0 <= k < kept_pairs(pairs, browsers, n).len() ==> discovered(
                browsers,
                (#[trigger] kept_pairs(pairs, browsers, n)[k]).0,
                kept_pairs(pairs, browsers, n)[k].1,
            ),
        kept_pairs(pairs, browsers, n).no_duplicates(),
    decreases n,
{
    if n > 0 {
        law_kept_pairs_were_discovered(pairs, browsers, n - 1);
    }
}

/// `v` with `x` added at the end unless it holds it.
pub open spec fn with_pair(v: Seq<(Seq<char>, Seq<char>)>, x: (Seq<char>, Seq<char>)) -> Seq<(Seq<char>, Seq<char>)> {
    if v.contains(x) {
        v
    } else {
        v.push(x)
    }
}

/// Whether a scan found profile `profile` of browser `browser`.
pub open spec fn discovered(browsers: Seq<BrowserInstallation>, browser: Seq<char>, profile: Seq<char>) -> bool {
    exists|i: int|
        0 <= i < all_profiles(browsers).len() && (#[trigger] all_profiles(browsers)[i]).browser_id
            == browser && all_profiles(browsers)[i].profile_id == profile
}

/// The activation recorded for browser `b`: the profile and when (the
/// latest entry for it).
pub open spec fn recent_of(recent: Seq<(Seq<char>, Seq<char>, u64)>, b: Seq<char>) -> Option<(Seq<char>, u64)>
    decreases recent.len(),
{
    if recent.len() == 0 {
        None
    } else if recent.last().0 == b {
        Some((recent.last().1, recent.last().2))
    } else {
        recent_of(recent.drop_last(), b)
    }
}

proof fn lemma_recent_of_remove(s: Seq<(Seq<char>, Seq<char>, u64)>, k: int, b: Seq<char>)
    requires
        0 <= k < s.len(),
        s[k].0 != b,
    ensures
        recent_of(s.remove(k), b) == recent_of(s, b),
    decreases s.len(),
{
    if k == s.len() - 1 {
        assert(s.remove(k) =~= s.drop_last());
    } else {
        assert(s.remove(k).last() == s.last());
        assert(s.remove(k).drop_last() =~= s.drop_last().remove(k));
        if s.last().0 != b {
            lemma_recent_of_remove(s.drop_last(), k, b);
        }
    }
}

/// Whether `id` is one of the supported browsers.
pub open spec fn is_supported_browser(id: Seq<char>) -> bool {
    id == "com.google.Chrome"@ || id == "com.microsoft.edgemac"@ || id == "com.brave.Browser"@
        || id == "org.mozilla.firefox"@
}

/// Whether `id` is one of the supported browsers.
pub fn supported_browser(id: &str) -> (r: bool)
    ensures
        r == is_supported_browser(id@),
{
    crate::text::text_eq(id, "com.google.Chrome") || crate::text::text_eq(id, "com.microsoft.edgemac")
        || crate::text::text_eq(id, "com.brave.Browser") || crate::text::text_eq(
        id,
        "org.mozilla.firefox",
    )
}

/// The activation a session for `(b, p)` carries: when `p` was last
/// activated in `b`, where it is the profile recorded for `b`.
pub open spec fn activation_of(recent: Seq<(Seq<char>, Seq<char>, u64)>, b: Seq<char>, p: Seq<char>) -> Option<u64> {
    match recent_of(recent, b) {
        Some((rp, t)) => if rp == p {
            Some(t)
        } else {
            None
        },
        None => None,
    }
}

/// The trimmed text of an optional name.
pub open spec fn trimmed_name(name: Option<Seq<char>>) -> Option<Seq<char>> {
    match name {
        Some(n) => Some(trim_spec(n)),
        None => None,
    }
}

/// `rule` with its name trimmed, all else kept.
pub open spec fn same_rule_but_name(a: RouteRule, b: RouteRule) -> bool {
    &&& a.id == b.id
    &&& a.enabled == b.enabled
    &&& a.order == b.order
    &&& a.matcher == b.matcher
    &&& a.target == b.target
    &&& a.enforcement == b.enforcement
    &&& a.fallback_scope == b.fallback_scope
    &&& a.unavailable_action == b.unavailable_action
}

/// The first of the first `n` rules that does not validate.
pub open spec fn first_invalid_upto(rules: Seq<RouteRule>, n: int) -> Option<int>
    decreases n,
{
    if n <= 0 {
        None
    } else {
        match first_invalid_upto(rules, n - 1) {
            Some(i) => Some(i),
            None => if rules[n - 1].problem_spec() is Some {
                Some(n - 1)
            } else {
                None
            },
        }
    }
}

proof fn lemma_first_invalid_stays(rules: Seq<RouteRule>, m: int, n: int)
    requires
        0 <= m <= n,
        first_invalid_upto(rules, m) is Some,
    ensures
        first_invalid_upto(rules, n) == first_invalid_upto(rules, m),
    decreases n - m,
{
    if m < n {
        lemma_first_invalid_stays(rules, m, n - 1);
    }
}

proof fn lemma_first_invalid_none(rules: Seq<RouteRule>, n: int)
    requires
        0 <= n <= rules.len(),
        first_invalid_upto(rules, n) is None,
    ensures
        forall|i: int| 0 <= i < n ==> (#[trigger] rules[i]).problem_spec() is None,
    decreases n,
{
    if n > 0 {
        lemma_first_invalid_none(rules, n - 1);
    }
}

/// The message for a configuration from a newer schema.
pub open spec fn schema_error_message(v: u32) -> Seq<char> {
    "unsupported schema version: "@ + decimal_spec(v as nat)
}

/// The message for a configuration from a newer schema.
fn schema_error(v: u32) -> (r: String)
    ensures
        r@ == schema_error_message(v),
{
    let mut s = String::from_str("unsupported schema version: ");
    let d = crate::text::decimal(v as u64);
    s.append(d.as_str());
    s
}

/// Checks a configuration before it replaces the one in use: a newer
/// schema is refused, then every rule must validate; the first rule that
/// does not gives the error.
pub fn check_config(config: RouterConfig) -> (r: Result<RouterConfig, String>)
    ensures
        config.schema_version > SCHEMA_VERSION ==> (r matches Err(m) && m@ == schema_error_message(
            config.schema_version,
        )),
        config.schema_version <= SCHEMA_VERSION ==> match first_invalid_upto(
            config.rules@,
            config.rules@.len() as int,
        ) {
            Some(i) => r matches Err(m) && exists|e: crate::config::ConfigError|
                e.problem() == config.rules@[i].problem_spec()->0 && e.rule_id() == config.rules@[i].id@
                    && m@ == crate::config::config_error_message(e.problem(), e.rule_id()),
            None => r matches Ok(c) && c == config && forall|k: int|
                0 <= k < c.rules@.len() ==> (#[trigger] c.rules@[k]).problem_spec() is None,
        },
{
    if config.schema_version > SCHEMA_VERSION {
        return Err(schema_error(config.schema_version));
    }
    let mut i: usize = 0;
    while i < config.rules.len()
        invariant
            config.schema_version <= SCHEMA_VERSION,
            i <= config.rules@.len(),
            first_invalid_upto(config.rules@, i as int) is None,
        decreases config.rules.len() - i,
    {
        match config.rules[i].validate() {
            Ok(()) => {},
            Err(e) => {
                proof {
                    lemma_first_invalid_stays(config.rules@, i + 1, config.rules@.len() as int);
                }
                return Err(e.message());
            },
        }
        i = i + 1;
    }
    proof {
        lemma_first_invalid_none(config.rules@, config.rules@.len() as int);
    }
    Ok(config)
}

/// Trims a rule's name.
fn trim_rule_name(rule: RouteRule) -> (r: RouteRule)
    ensures
        same_rule_but_name(r, rule),
        opt_text(r.name) == trimmed_name(opt_text(rule.name)),
        r.problem_spec() == rule.problem_spec(),
{
    let name = match &rule.name {
        Some(n) => Some(crate::text::trim(n.as_str()).to_owned()),
        None => None,
    };
    proof {
        match rule.name {
            Some(n) => {
                crate::text::lemma_blank_iff_trim_empty(n@);
            },
            None => {},
        }
    }
    RouteRule {
        id: rule.id,
        name,
        enabled: rule.enabled,
        order: rule.order,
        matcher: rule.matcher,
        target: rule.target,
        enforcement: rule.enforcement,
        fallback_scope: rule.fallback_scope,
        unavailable_action: rule.unavailable_action,
    }
}

/// Whether a configuration can be saved: its schema is not newer than the
/// router's and every rule validates (names are trimmed first, which
/// changes no rule's validity).
pub open spec fn config_accepted(config: RouterConfig) -> bool {
    config.schema_version <= SCHEMA_VERSION && first_invalid_upto(
        config.rules@,
        config.rules@.len() as int,
    ) is None
}

/// The message with which a configuration that cannot be saved is
/// refused: the newer schema, else the problem of its first rule that does
/// not validate.
pub open spec fn config_refusal(config: RouterConfig, m: Seq<char>) -> bool {
    if config.schema_version > SCHEMA_VERSION {
        m == schema_error_message(config.schema_version)
    } else {
        match first_invalid_upto(config.rules@, config.rules@.len() as int) {
            Some(i) => exists|e: crate::config::ConfigError|
                e.problem() == config.rules@[i].problem_spec()->0 && e.rule_id() == config.rules@[i].id@
                    && m == crate::config::config_error_message(e.problem(), e.rule_id()),
            None => false,
        }
    }
}

/// `c` is `config` prepared for saving: the same schema and rules, each
/// rule's name trimmed, every rule valid.
pub open spec fn prepared_from(c: RouterConfig, config: RouterConfig) -> bool {
    c.schema_version == config.schema_version && c.rules@.len() == config.rules@.len() && forall|k: int|
        0 <= k < c.rules@.len() ==> same_rule_but_name(#[trigger] c.rules@[k], config.rules@[k])
            && opt_text(c.rules@[k].name) == trimmed_name(opt_text(config.rules@[k].name))
            && c.rules@[k].problem_spec() is None
}

proof fn lemma_all_valid_none_invalid(rules: Seq<RouteRule>, n: int)
    requires
        0 <= n <= rules.len(),
        forall|k: int| 0 <= k < rules.len() ==> (#[trigger] rules[k]).problem_spec() is None,
    ensures
        first_invalid_upto(rules, n) is None,
    decreases n,
{
    if n > 0 {
        lemma_all_valid_none_invalid(rules, n - 1);
        assert(rules[n - 1].problem_spec() is None);
    }
}

/// A configuration put in use by a save is one the router accepts as it
/// is, and saving it again (as importing an export of it does) keeps it:
/// the same schema and the same rules, names included.
pub proof fn law_saved_config_saves_unchanged(config: RouterConfig, saved: RouterConfig, again: RouterConfig)
    requires
        config_accepted(config),
        prepared_from(saved, config),
        prepared_from(again, saved),
    ensures
        config_accepted(saved),
        again.schema_version == saved.schema_version,
        again.rules@.len() == saved.rules@.len(),
        forall|k: int|
            0 <= k < saved.rules@.len() ==> same_rule_but_name(#[trigger] again.rules@[k], saved.rules@[k])
                && opt_text(again.rules@[k].name) == opt_text(saved.rules@[k].name),
{
    lemma_all_valid_none_invalid(saved.rules@, saved.rules@.len() as int);
    assert forall|k: int| 0 <= k < saved.rules@.len() implies opt_text(
        #[trigger] again.rules@[k].name,
    ) == opt_text(saved.rules@[k].name) by {
        match opt_text(config.rules@[k].name) {
            Some(n) => crate::text::lemma_trim_idempotent(n),
            None => {},
        }
    }
}

/// Prepares a configuration to be saved: a newer schema is refused; each
/// rule's name is trimmed; then every rule must validate, the first that
/// does not giving the error.
pub fn prepare_config(config: RouterConfig) -> (r: Result<RouterConfig, String>)
    ensures
        config.schema_version > SCHEMA_VERSION ==> (r matches Err(m) && m@ == schema_error_message(
            config.schema_version,
        )),
        config.schema_version <= SCHEMA_VERSION ==> match first_invalid_upto(
            config.rules@,
            config.rules@.len() as int,
        ) {
            Some(i) => r matches Err(m) && exists|e: crate::config::ConfigError|
                e.problem() == config.rules@[i].problem_spec()->0 && e.rule_id() == config.rules@[i].id@
                    && m@ == crate::config::config_error_message(e.problem(), e.rule_id()),
            None => r matches Ok(c) && c.schema_version == config.schema_version && c.rules@.len()
                == config.rules@.len() && forall|k: int|
                0 <= k < c.rules@.len() ==> same_rule_but_name(
                    #[trigger] c.rules@[k],
                    config.rules@[k],
                ) && opt_text(c.rules@[k].name) == trimmed_name(opt_text(config.rules@[k].name))
                    && c.rules@[k].problem_spec() is None,
        },
{
    if config.schema_version > SCHEMA_VERSION {
        return Err(schema_error(config.schema_version));
    }
    let ghost original = config.rules@;
    let schema_version = config.schema_version;
    let mut rest = config.rules;
    let n = rest.len();
    let mut out: Vec<RouteRule> = Vec::new();
    let mut i: usize = 0;
    while rest.len() > 0
        invariant
            schema_version == config.schema_version,
            schema_version <= SCHEMA_VERSION,
            original == config.rules@,
            original.len() == n,
            i + rest@.len() == original.len(),
            out@.len() == i,
            rest@ == original.skip(i as int),
            first_invalid_upto(original, i as int) is None,
            forall|k: int|
                0 <= k < i ==> same_rule_but_name(#[trigger] out@[k], original[k]) && opt_text(
                    out@[k].name,
                ) == trimmed_name(opt_text(original[k].name)) && out@[k].problem_spec() is None,
        decreases rest.len(),
    {
        let rule = rest.remove(0);
        assert(rule == original[i as int]);
        let ghost plain = rule;
        let rule = trim_rule_name(rule);
        match rule.validate() {
            Ok(()) => {},
            Err(e) => {
                proof {
                    assert(original[i as int].problem_spec() is Some);
                    assert(first_invalid_upto(original, i + 1) == Some(i as int));
                    lemma_first_invalid_stays(original, i + 1, original.len() as int);
                    assert(e.problem() == original[i as int].problem_spec()->0);
                    assert(e.rule_id() == original[i as int].id@);
                }
                let m = e.message();
                assert(m@ == crate::config::config_error_message(e.problem(), e.rule_id()));
                assert(first_invalid_upto(config.rules@, config.rules@.len() as int) == Some(i as int));
                assert(exists|e2: crate::config::ConfigError|
                    e2.problem() == config.rules@[i as int].problem_spec()->0 && e2.rule_id()
                        == config.rules@[i as int].id@ && m@ == crate::config::config_error_message(
                        e2.problem(),
                        e2.rule_id(),
                    ));
                return Err(m);
            },
        }
        out.push(rule);
        assert(rest@ =~= original.skip(i + 1));
        i = i + 1;
    }
    Ok(RouterConfig { schema_version, rules: out })
}

/// The router's state on the desktop.
#[derive(Debug)]
pub struct DesktopService {
    pub config: RouterConfig,
    pub config_error: Option<String>,
    pub browsers: Vec<BrowserInstallation>,
    pub paused: bool,
    pub ask_next: bool,
    pub diagnostics: DiagnosticLog,
    pub state: ServiceState,
}

/// The service's own bookkeeping, which only its methods change: the links
/// waiting for a choice, the identifier the next link gets, the routing
/// engine, and the identities observed.
#[derive(Debug)]
pub struct ServiceState {
    pending_routes: Vec<PendingRoute>,
    next_event_id: u64,
    engine: DefaultRouteEngine,
    recent_identities: Vec<(BrowserId, ProfileId, u64)>,
    available_profiles: Vec<(BrowserId, ProfileId)>,
}

impl ServiceState {
    /// The links waiting for a choice, oldest first.
    pub closed spec fn pending_view(&self) -> Seq<PendingView> {
        pending_views(self.pending_routes@)
    }

    /// The identifier the next link gets.
    pub closed spec fn next_id(&self) -> u64 {
        self.next_event_id
    }

    /// The profiles observed open, as (browser, profile), in the order
    /// first observed.
    pub closed spec fn available_view(&self) -> Seq<(Seq<char>, Seq<char>)> {
        self.available_profiles@.map_values(|e: (BrowserId, ProfileId)| (e.0@, e.1@))
    }

    /// The recorded activations, as (browser, profile, when).
    pub closed spec fn recent_view(&self) -> Seq<(Seq<char>, Seq<char>, u64)> {
        self.recent_identities@.map_values(|e: (BrowserId, ProfileId, u64)| (e.0@, e.1@, e.2))
    }
}

impl DesktopService {
    /// The links waiting for a choice, oldest first.
    pub open spec fn pending_view(&self) -> Seq<PendingView> {
        self.state.pending_view()
    }

    /// The identifier the next link gets.
    pub open spec fn next_id(&self) -> u64 {
        self.state.next_id()
    }

    /// The profiles observed open, as (browser, profile), in the order
    /// first observed.
    pub open spec fn available_view(&self) -> Seq<(Seq<char>, Seq<char>)> {
        self.state.available_view()
    }

    /// The recorded activations, as (browser, profile, when).
    pub open spec fn recent_view(&self) -> Seq<(Seq<char>, Seq<char>, u64)> {
        self.state.recent_view()
    }

    /// The log is well formed.
    pub open spec fn wf(&self) -> bool {
        self.diagnostics.wf()
    }

    /// The state at start-up: the loaded configuration, or the default one
    /// where there is no file (silently) or it could not be loaded (the
    /// error is kept and the file left alone); nothing paused, nothing
    /// pending, no identity observed.
    pub fn new(loaded: Result<RouterConfig, ConfigStoreError>, diagnostics: DiagnosticLog) -> (r: Self)
        requires
            diagnostics.wf(),
        ensures
            r.wf(),
            r.diagnostics == diagnostics,
            match loaded {
                Ok(c) => r.config == c && r.config_error is None,
                Err(e) => r.config.schema_version == SCHEMA_VERSION && r.config.rules@.len() == 0
                    && if e matches ConfigStoreError::Io { not_found: true, .. } {
                    r.config_error is None
                } else {
                    opt_text(r.config_error) == Some(e.message_spec())
                },
            },
            r.browsers@.len() == 0,
            !r.paused,
            !r.ask_next,
            r.pending_view().len() == 0,
            r.next_id() == 1,
            r.available_view().len() == 0,
            r.recent_view().len() == 0,
    {
        let (config, config_error) = match loaded {
            Ok(c) => (c, None),
            Err(e) => {
                let default_config = RouterConfig { schema_version: SCHEMA_VERSION, rules: Vec::new() };
                match &e {
                    ConfigStoreError::Io { not_found: true, .. } => (default_config, None),
                    _ => (default_config, Some(e.message())),
                }
            },
        };
        let r = DesktopService {
            config,
            config_error,
            browsers: Vec::new(),
            paused: false,
            ask_next: false,
            diagnostics,
            state: ServiceState {
                pending_routes: Vec::new(),
                next_event_id: 1,
                engine: DefaultRouteEngine::new(),
                recent_identities: Vec::new(),
                available_profiles: Vec::new(),
            },
        };
        assert(r.pending_view() =~= Seq::<PendingView>::empty());
        assert(r.available_view() =~= Seq::<(Seq<char>, Seq<char>)>::empty());
        assert(r.recent_view() =~= Seq::<(Seq<char>, Seq<char>, u64)>::empty());
        r
    }

    /// The links waiting for a choice, oldest first.
    pub fn pending_routes(&self) -> (r: &Vec<PendingRoute>)
        ensures
            pending_views(r@) == self.pending_view(),
    {
        &self.state.pending_routes
    }

    /// Pauses routing, or resumes it; nothing else changes.
    pub fn set_paused(&mut self, paused: bool)
        ensures
            final(self).paused == paused,
            final(self).ask_next == old(self).ask_next,
            final(self).config == old(self).config,
            final(self).config_error == old(self).config_error,
            final(self).browsers == old(self).browsers,
            final(self).diagnostics == old(self).diagnostics,
            final(self).pending_view() == old(self).pending_view(),
            final(self).next_id() == old(self).next_id(),
            final(self).available_view() == old(self).available_view(),
            final(self).recent_view() == old(self).recent_view(),
    {
        self.paused = paused;
    }

    /// Asks, or stops asking, about the next link; nothing else changes.
    pub fn set_ask_next(&mut self, ask_next: bool)
        ensures
            final(self).ask_next == ask_next,
            final(self).paused == old(self).paused,
            final(self).config == old(self).config,
            final(self).config_error == old(self).config_error,
            final(self).browsers == old(self).browsers,
            final(self).diagnostics == old(self).diagnostics,
            final(self).pending_view() == old(self).pending_view(),
            final(self).next_id() == old(self).next_id(),
            final(self).available_view() == old(self).available_view(),
            final(self).recent_view() == old(self).recent_view(),
    {
        self.ask_next = ask_next;
    }

    /// The identifier the next link gets.
    pub fn next_event_id(&self) -> (r: u64)
        ensures
            r == self.next_id(),
    {
        self.state.next_event_id
    }

    /// Saves a configuration: it is prepared as `prepare_config` does (a
    /// newer schema or an invalid rule is refused, and nothing changes);
    /// `written` is how writing the prepared configuration to the store
    /// went. Once written it replaces the one in use and clears any load
    /// error; a failed write changes nothing and is handed back.
    pub fn save_config(&mut self, config: RouterConfig, written: Result<(), String>) -> (r: Result<(), String>)
        ensures
            !config_accepted(config) ==> (r matches Err(m) && config_refusal(config, m@))
                && final(self).config == old(self).config && final(self).config_error == old(self).config_error,
            config_accepted(config) ==> match written {
                Ok(()) => r is Ok && prepared_from(final(self).config, config) && final(self).config_error is None,
                Err(e) => r matches Err(m) && m@ == e@ && final(self).config == old(self).config
                    && final(self).config_error == old(self).config_error,
            },
            final(self).diagnostics == old(self).diagnostics,
            final(self).pending_view() == old(self).pending_view(),
            final(self).next_id() == old(self).next_id(),
            final(self).available_view() == old(self).available_view(),
            final(self).recent_view() == old(self).recent_view(),
            final(self).ask_next == old(self).ask_next,
            final(self).paused == old(self).paused,
    {
        match prepare_config(config) {
            Err(m) => Err(m),
            Ok(prepared) => match written {
                Ok(()) => {
                    self.config = prepared;
                    self.config_error = None;
                    Ok(())
                },
                Err(e) => Err(e),
            },
        }
    }

    /// Records that profile `profile_id` of `browser_id` is open.
    pub fn record_available_profile(&mut self, browser_id: BrowserId, profile_id: ProfileId)
        ensures
            final(self).available_view() == if old(self).available_view().contains(
                (browser_id@, profile_id@),
            ) {
                old(self).available_view()
            } else {
                old(self).available_view().push((browser_id@, profile_id@))
            },
            final(self).recent_view() == old(self).recent_view(),
            final(self).config == old(self).config,
            final(self).browsers == old(self).browsers,
            final(self).diagnostics == old(self).diagnostics,
            final(self).pending_view() == old(self).pending_view(),
            final(self).next_id() == old(self).next_id(),
            final(self).ask_next == old(self).ask_next,
            final(self).paused == old(self).paused,
    {
        let ghost view = self.available_view();
        let mut i: usize = 0;
        while i < self.state.available_profiles.len()
            invariant
                i <= self.state.available_profiles@.len(),
                view == self.state.available_profiles@.map_values(
                    |e: (BrowserId, ProfileId)| (e.0@, e.1@),
                ),
                forall|j: int| 0 <= j < i ==> #[trigger] view[j] != (browser_id@, profile_id@),
            decreases self.state.available_profiles.len() - i,
        {
            let (b, p) = &self.state.available_profiles[i];
            assert(view[i as int] == (b@, p@));
            if crate::text::text_eq(b.as_str(), browser_id.as_str()) && crate::text::text_eq(
                p.as_str(),
                profile_id.as_str(),
            ) {
                return;
            }
            i = i + 1;
        }
        self.state.available_profiles.push((browser_id, profile_id));
        assert(self.available_view() =~= view.push((browser_id@, profile_id@)));
    }

    /// Records that profile `profile_id` of `browser_id` was activated at
    /// `activation`: it is open, and it is the browser's latest activation.
    pub fn record_active_identity(&mut self, browser_id: BrowserId, profile_id: ProfileId, activation: u64)
        ensures
            final(self).available_view() == if old(self).available_view().contains(
                (browser_id@, profile_id@),
            ) {
                old(self).available_view()
            } else {
                old(self).available_view().push((browser_id@, profile_id@))
            },
            recent_of(final(self).recent_view(), browser_id@) == Some((profile_id@, activation)),
            forall|b: Seq<char>|
                b != browser_id@ ==> recent_of(final(self).recent_view(), b) == recent_of(
                    old(self).recent_view(),
                    b,
                ),
            final(self).config == old(self).config,
            final(self).browsers == old(self).browsers,
            final(self).diagnostics == old(self).diagnostics,
            final(self).pending_view() == old(self).pending_view(),
            final(self).next_id() == old(self).next_id(),
            final(self).ask_next == old(self).ask_next,
            final(self).paused == old(self).paused,
    {
        let b2 = browser_id.clone();
        let p2 = profile_id.clone();
        self.record_available_profile(b2, p2);
        let ghost view = self.recent_view();
        let found = self.find_recent(&browser_id);
        if let Some(i) = found {
            assert(view[i as int].0 == browser_id@);
            let _ = self.state.recent_identities.remove(i);
            assert(self.recent_view() =~= view.remove(i as int));
            assert forall|b: Seq<char>| b != browser_id@ implies recent_of(
                self.recent_view(),
                b,
            ) == recent_of(view, b) by {
                lemma_recent_of_remove(view, i as int, b);
            }
        }
        let ghost mid = self.recent_view();
        self.state.recent_identities.push((browser_id, profile_id, activation));
        assert(self.recent_view() =~= mid.push((browser_id@, profile_id@, activation)));
        assert(self.recent_view().drop_last() =~= mid);
    }

    /// The browser sessions observed: one per open profile, each with an
    /// observed window, none incognito, carrying the profile's activation
    /// where it is the one recorded for its browser.
    pub fn runtime_snapshot(&self) -> (r: RuntimeSnapshot)
        ensures
            r.sessions@.len() == self.available_view().len(),
            forall|i: int|
                0 <= i < r.sessions@.len() ==> {
                    let s = #[trigger] r.sessions@[i];
                    &&& (s.browser_id@, s.profile_id@) == self.available_view()[i]
                    &&& s.windows@.len() == 1
                    &&& s.windows@[0].0@ == "observed-browser-window"@
                    &&& !s.is_incognito
                    &&& s.last_user_activation == activation_of(
                        self.recent_view(),
                        s.browser_id@,
                        s.profile_id@,
                    )
                },
            r.source_identity is None,
    {
        let ghost avail = self.available_view();
        let ghost recent = self.recent_view();
        let mut sessions: Vec<BrowserSession> = Vec::new();
        let mut i: usize = 0;
        while i < self.state.available_profiles.len()
            invariant
                i <= self.state.available_profiles@.len(),
                avail == self.available_view(),
                recent == self.recent_view(),
                sessions@.len() == i,
                forall|k: int|
                    0 <= k < i ==> {
                        let s = #[trigger] sessions@[k];
                        &&& (s.browser_id@, s.profile_id@) == avail[k]
                        &&& s.windows@.len() == 1
                        &&& s.windows@[0].0@ == "observed-browser-window"@
                        &&& !s.is_incognito
                        &&& s.last_user_activation == activation_of(
                            recent,
                            s.browser_id@,
                            s.profile_id@,
                        )
                    },
            decreases self.state.available_profiles.len() - i,
        {
            let (b, p) = &self.state.available_profiles[i];
            assert(avail[i as int] == (b@, p@));
            let activation = self.activation(b, p);
            let mut windows: Vec<WindowRef> = Vec::new();
            windows.push(WindowRef(String::from_str("observed-browser-window")));
            sessions.push(
                BrowserSession {
                    browser_id: b.clone(),
                    profile_id: p.clone(),
                    windows,
                    is_incognito: false,
                    last_user_activation: activation,
                },
            );
            i = i + 1;
        }
        RuntimeSnapshot { sessions, source_identity: None }
    }

    /// The position of an activation recorded for browser `b`.
    fn find_recent(&self, b: &BrowserId) -> (r: Option<usize>)
        ensures
            match r {
                Some(k) => k < self.recent_view().len() && self.recent_view()[k as int].0 == b@
                    && forall|j: int| 0 <= j < k ==> (#[trigger] self.recent_view()[j]).0 != b@,
                None => forall|j: int|
                    0 <= j < self.recent_view().len() ==> (#[trigger] self.recent_view()[j]).0 != b@,
            },
    {
        let mut i: usize = 0;
        while i < self.state.recent_identities.len()
            invariant
                i <= self.state.recent_identities@.len(),
                forall|j: int| 0 <= j < i ==> (#[trigger] self.recent_view()[j]).0 != b@,
            decreases self.state.recent_identities.len() - i,
        {
            assert(self.recent_view()[i as int].0 == self.state.recent_identities@[i as int].0@);
            if crate::text::text_eq(self.state.recent_identities[i].0.as_str(), b.as_str()) {
                return Some(i);
            }
            i = i + 1;
        }
        None
    }

    /// When profile `p` of browser `b` was last activated, where it is the
    /// profile recorded for `b`.
    fn activation(&self, b: &BrowserId, p: &ProfileId) -> (r: Option<u64>)
        ensures
            r == activation_of(self.recent_view(), b@, p@),
    {
        let ghost recent = self.recent_view();
        let mut i: usize = self.state.recent_identities.len();
        assert(recent.subrange(0, i as int) =~= recent);
        while i > 0
            invariant
                i <= self.state.recent_identities@.len(),
                recent == self.recent_view(),
                recent_of(recent, b@) == recent_of(recent.subrange(0, i as int), b@),
            decreases i,
        {
            let (rb, rp, t) = &self.state.recent_identities[i - 1];
            assert(recent.subrange(0, i as int).last() == (rb@, rp@, *t));
            assert(recent.subrange(0, i as int).drop_last() =~= recent.subrange(0, i - 1));
            if crate::text::text_eq(rb.as_str(), b.as_str()) {
                if crate::text::text_eq(rp.as_str(), p.as_str()) {
                    return Some(*t);
                } else {
                    return None;
                }
            }
            i = i - 1;
        }
        None
    }

    /// Whether a scan found profile `profile` of browser `browser`.
    fn is_discovered(&self, browser: &str, profile: &str) -> (r: bool)
        ensures
            r == discovered(self.browsers@, browser@, profile@),
    {
        let mut i: usize = 0;
        while i < self.browsers.len()
            invariant
                i <= self.browsers@.len(),
                !discovered(self.browsers@.subrange(0, i as int), browser@, profile@),
            decreases self.browsers.len() - i,
        {
            let profiles = &self.browsers[i].profiles;
            let ghost before = all_profiles(self.browsers@.subrange(0, i as int));
            let ghost mine = profiles@.map_values(|p: BrowserProfile| p@);
            assert(self.browsers@.subrange(0, i + 1).drop_last() =~= self.browsers@.subrange(
                0,
                i as int,
            ));
            assert(all_profiles(self.browsers@.subrange(0, i + 1)) == before + mine);
            let mut j: usize = 0;
            while j < profiles.len()
                invariant
                    i < self.browsers@.len(),
                    profiles == self.browsers@[i as int].profiles,
                    before == all_profiles(self.browsers@.subrange(0, i as int)),
                    all_profiles(self.browsers@.subrange(0, i + 1)) == before + mine,
                    j <= profiles@.len(),
                    mine == profiles@.map_values(|p: BrowserProfile| p@),
                    forall|k: int|
                        0 <= k < j ==> !((#[trigger] mine[k]).browser_id == browser@
                            && mine[k].profile_id == profile@),
                decreases profiles.len() - j,
            {
                let pr = &profiles[j];
                assert(mine[j as int] == pr@);
                if crate::text::text_eq(pr.browser_id.as_str(), browser) && crate::text::text_eq(
                    pr.profile_id.as_str(),
                    profile,
                ) {
                    proof {
                        let all = all_profiles(self.browsers@.subrange(0, i + 1));
                        assert(all[before.len() + j] == mine[j as int]);
                        lemma_all_profiles_prefix(self.browsers@, i + 1);
                        assert(all_profiles(self.browsers@)[before.len() + j] == all[before.len() + j]);
                    }
                    return true;
                }
                j = j + 1;
            }
            i = i + 1;
        }
        assert(self.browsers@.subrange(0, self.browsers@.len() as int) =~= self.browsers@);
        false
    }

    /// Records the profile used last in `browser_id` as its current
    /// activation, where a scan found that profile.
    pub fn record_current_browser_identity(&mut self, browser_id: BrowserId, last_used: Option<ProfileId>, now: u64)
        ensures
            match last_used {
                Some(p) => if discovered(old(self).browsers@, browser_id@, p@) {
                    recent_of(final(self).recent_view(), browser_id@) == Some((p@, now))
                        && final(self).available_view() == if old(self).available_view().contains(
                        (browser_id@, p@),
                    ) {
                        old(self).available_view()
                    } else {
                        old(self).available_view().push((browser_id@, p@))
                    } && forall|b: Seq<char>|
                        b != browser_id@ ==> recent_of(final(self).recent_view(), b) == recent_of(
                            old(self).recent_view(),
                            b,
                        )
                } else {
                    final(self).recent_view() == old(self).recent_view() && final(self).available_view() == old(self).available_view()
                },
                None => final(self).recent_view() == old(self).recent_view() && final(self).available_view() == old(self).available_view(),
            },
            final(self).config == old(self).config,
            final(self).browsers == old(self).browsers,
            final(self).diagnostics == old(self).diagnostics,
            final(self).pending_view() == old(self).pending_view(),
            final(self).next_id() == old(self).next_id(),
            final(self).ask_next == old(self).ask_next,
            final(self).paused == old(self).paused,
    {
        let profile_id = match last_used {
            Some(p) => p,
            None => return,
        };
        if self.is_discovered(browser_id.as_str(), profile_id.as_str()) {
            self.record_active_identity(browser_id, profile_id, now);
        }
    }

    /// Records the frontmost application's last used profile as current,
    /// where the application is a supported browser; any other application
    /// records nothing.
    pub fn seed_frontmost_browser_identity(&mut self, bundle_id: Option<String>, last_used: Option<ProfileId>, now: u64)
        ensures
            match bundle_id {
                Some(b) => if is_supported_browser(b@) && last_used is Some && discovered(
                    old(self).browsers@,
                    b@,
                    last_used->0@,
                ) {
                    recent_of(final(self).recent_view(), b@) == Some((last_used->0@, now))
                        && final(self).available_view() == with_pair(
                        old(self).available_view(),
                        (b@, last_used->0@),
                    ) && forall|x: Seq<char>|
                        x != b@ ==> recent_of(final(self).recent_view(), x) == recent_of(
                            old(self).recent_view(),
                            x,
                        )
                } else {
                    final(self).recent_view() == old(self).recent_view() && final(self).available_view() == old(self).available_view()
                },
                None => final(self).recent_view() == old(self).recent_view() && final(self).available_view() == old(self).available_view(),
            },
            final(self).config == old(self).config,
            final(self).browsers == old(self).browsers,
            final(self).diagnostics == old(self).diagnostics,
            final(self).pending_view() == old(self).pending_view(),
            final(self).next_id() == old(self).next_id(),
            final(self).ask_next == old(self).ask_next,
            final(self).paused == old(self).paused,
    {
        let bundle_id = match bundle_id {
            Some(b) => b,
            None => return,
        };
        if supported_browser(bundle_id.as_str()) {
            self.record_current_browser_identity(BrowserId::from_string(bundle_id), last_used, now);
        }
    }

    /// Replaces the open profiles with those that the running browsers
    /// report and a scan found: for each running browser, its active
    /// profiles, in order.
    pub fn refresh_running_browser_sessions(&mut self, running: &Vec<(BrowserId, Vec<ProfileId>)>)
        ensures
            final(self).available_view() == kept_pairs(
                running_pairs(running@),
                old(self).browsers@,
                running_pairs(running@).len() as int,
            ),
            final(self).recent_view() == old(self).recent_view(),
            final(self).config == old(self).config,
            final(self).browsers == old(self).browsers,
            final(self).diagnostics == old(self).diagnostics,
            final(self).pending_view() == old(self).pending_view(),
            final(self).next_id() == old(self).next_id(),
            final(self).ask_next == old(self).ask_next,
            final(self).paused == old(self).paused,
    {
        self.state.available_profiles = Vec::new();
        assert(self.available_view() =~= Seq::<(Seq<char>, Seq<char>)>::empty());
        let ghost browsers = self.browsers@;
        let mut i: usize = 0;
        assert(running@.subrange(0, 0) =~= Seq::<(BrowserId, Vec<ProfileId>)>::empty());
        while i < running.len()
            invariant
                i <= running@.len(),
                browsers == self.browsers@,
                self.available_view() == kept_pairs(
                    running_pairs(running@.subrange(0, i as int)),
                    browsers,
                    running_pairs(running@.subrange(0, i as int)).len() as int,
                ),
                self.recent_view() == old(self).recent_view(),
                self.config == old(self).config,
                self.browsers == old(self).browsers,
                self.diagnostics == old(self).diagnostics,
                self.pending_view() == old(self).pending_view(),
                self.next_id() == old(self).next_id(),
                self.ask_next == old(self).ask_next,
                self.paused == old(self).paused,
            decreases running.len() - i,
        {
            let (browser_id, profiles) = &running[i];
            let ghost head = running_pairs(running@.subrange(0, i as int));
            let ghost inner = profiles@.map_values(|p: ProfileId| (browser_id@, p@));
            assert(running@.subrange(0, i + 1).drop_last() =~= running@.subrange(0, i as int));
            assert(running_pairs(running@.subrange(0, i + 1)) == head + inner);
            let mut j: usize = 0;
            assert(head + inner.subrange(0, 0) =~= head);
            while j < profiles.len()
                invariant
                    j <= profiles@.len(),
                    browsers == self.browsers@,
                    inner == profiles@.map_values(|p: ProfileId| (browser_id@, p@)),
                    self.available_view() == kept_pairs(
                        head + inner.subrange(0, j as int),
                        browsers,
                        (head + inner.subrange(0, j as int)).len() as int,
                    ),
                    self.recent_view() == old(self).recent_view(),
                    self.config == old(self).config,
                    self.browsers == old(self).browsers,
                    self.diagnostics == old(self).diagnostics,
                    self.pending_view() == old(self).pending_view(),
                    self.next_id() == old(self).next_id(),
                    self.ask_next == old(self).ask_next,
                    self.paused == old(self).paused,
                decreases profiles.len() - j,
            {
                let profile_id = &profiles[j];
                let ghost q = head + inner.subrange(0, j as int);
                let ghost q1 = head + inner.subrange(0, j + 1);
                assert(q1 =~= q.push((browser_id@, profile_id@)));
                proof {
                    lemma_kept_prefix(q, q1, browsers, q.len() as int);
                }
                if self.is_discovered(browser_id.as_str(), profile_id.as_str()) {
                    self.record_available_profile(browser_id.clone(), profile_id.clone());
                }
                j = j + 1;
            }
            assert(inner.subrange(0, profiles@.len() as int) =~= inner);
            i = i + 1;
        }
        assert(running@.subrange(0, running@.len() as int) =~= running@);
    }

    /// Removes the pending link `id` without opening it, and records that
    /// it was cancelled; an unknown link is an error.
    pub fn cancel_pending(&mut self, id: u64, now: u64) -> (r: Result<(), String>)
        requires
            old(self).wf(),
        ensures
            final(self).wf(),
            match pending_index(old(self).pending_view(), id) {
                Some(k) => r is Ok && final(self).pending_view() == old(self).pending_view().remove(k)
                    && final(self).diagnostics.events_view() == crate::diagnostics::keep_last(
                    old(self).diagnostics.events_view().push(
                        crate::diagnostics::route_event(
                            now,
                            old(self).pending_view()[k].source_app,
                            old(self).pending_view()[k].url.2,
                            "cancelled"@,
                            old(self).pending_view()[k].rule_id,
                            None,
                            None,
                        ),
                    ),
                    old(self).diagnostics.limit_spec(),
                ),
                None => r matches Err(m) && m@ == "pending route was not found"@ && final(self).pending_view() == old(self).pending_view() && final(self).diagnostics == old(self).diagnostics,
            },
            final(self).config == old(self).config,
            final(self).next_id() == old(self).next_id(),
            final(self).available_view() == old(self).available_view(),
            final(self).recent_view() == old(self).recent_view(),
            final(self).ask_next == old(self).ask_next,
            final(self).paused == old(self).paused,
    {
        let index = match self.find_pending(id) {
            Some(k) => k,
            None => return Err(String::from_str("pending route was not found")),
        };
        let ghost before = self.pending_view();
        let route = self.state.pending_routes.remove(index);
        assert(self.pending_view() =~= before.remove(index as int));
        let rule_id = match &route.rule_id {
            Some(r) => Some(r.as_str()),
            None => None,
        };
        self.diagnostics.record_route(
            now,
            route.source_app.as_str(),
            &route.url,
            "cancelled",
            rule_id,
            None,
            None,
        );
        Ok(())
    }

    /// The position of pending link `id`.
    fn find_pending(&self, id: u64) -> (r: Option<usize>)
        ensures
            match r {
                Some(k) => k < self.pending_view().len() && pending_index(self.pending_view(), id)
                    == Some(k as int),
                None => pending_index(self.pending_view(), id) is None,
            },
    {
        let ghost v = self.pending_view();
        let mut i: usize = 0;
        while i < self.state.pending_routes.len()
            invariant
                i <= self.state.pending_routes@.len(),
                v == self.pending_view(),
                forall|j: int| 0 <= j < i ==> (#[trigger] v[j]).id != id,
            decreases self.state.pending_routes.len() - i,
        {
            assert(v[i as int].id == self.state.pending_routes@[i as int].id);
            if self.state.pending_routes[i].id == id {
                proof {
                    lemma_pending_index(v, id, i as int);
                }
                return Some(i);
            }
            i = i + 1;
        }
        proof {
            lemma_pending_index_none(v, id);
        }
        None
    }
}

/// The position of the first pending link `id`.
pub open spec fn pending_index(v: Seq<PendingView>, id: u64) -> Option<int> {
    if exists|i: int| 0 <= i < v.len() && (#[trigger] v[i]).id == id {
        Some(
            choose|i: int|
                0 <= i < v.len() && (#[trigger] v[i]).id == id && forall|j: int|
                    0 <= j < i ==> (#[trigger] v[j]).id != id,
        )
    } else {
        None
    }
}

proof fn lemma_pending_index(v: Seq<PendingView>, id: u64, i: int)
    requires
        0 <= i < v.len(),
        v[i].id == id,
        forall|j: int| 0 <= j < i ==> (#[trigger] v[j]).id != id,
    ensures
        pending_index(v, id) == Some(i),
{
    let k = choose|k: int|
        0 <= k < v.len() && (#[trigger] v[k]).id == id && forall|j: int|
            0 <= j < k ==> (#[trigger] v[j]).id != id;
    assert(exists|k: int|
        0 <= k < v.len() && (#[trigger] v[k]).id == id && forall|j: int|
            0 <= j < k ==> (#[trigger] v[j]).id != id) by {
        assert(v[i].id == id);
    }
    if k < i {
        assert(v[k].id != id);
    }
    if i < k {
        assert(v[i].id != id);
    }
}

proof fn lemma_pending_index_none(v: Seq<PendingView>, id: u64)
    requires
        forall|j: int| 0 <= j < v.len() ==> (#[trigger] v[j]).id != id,
    ensures
        pending_index(v, id) is None,
{
}

proof fn lemma_all_profiles_prefix(browsers: Seq<BrowserInstallation>, n: int)
    requires
        0 <= n <= browsers.len(),
    ensures
        all_profiles(browsers.subrange(0, n)).len() <= all_profiles(browsers).len(),
        forall|k: int|
            0 <= k < all_profiles(browsers.subrange(0, n)).len() ==> #[trigger] all_profiles(
                browsers,
            )[k] == all_profiles(browsers.subrange(0, n))[k],
    decreases browsers.len() - n,
{
    if n < browsers.len() {
        lemma_all_profiles_prefix(browsers, n + 1);
        assert(browsers.subrange(0, n + 1).drop_last() =~= browsers.subrange(0, n));
    } else {
        assert(browsers.subrange(0, n) =~= browsers);
    }
}


// ---------------------------------------------------------------------------
// Opening links.
// ---------------------------------------------------------------------------

/// A request to open a link, as plain values.
pub struct IntentView {
    pub browser_id: Seq<char>,
    pub profile_id: Option<Seq<char>>,
    pub url: (Seq<char>, Seq<char>, Option<Seq<char>>),
    pub args: Seq<Seq<char>>,
    pub disposition: OpenDisposition,
}

/// An open request as plain values.
pub open spec fn intent_view(i: BrowserOpenIntent) -> IntentView {
    IntentView {
        browser_id: i.browser_id@,
        profile_id: crate::routing::opt_profile(i.profile_id),
        url: i.url.parts(),
        args: texts(i.args@),
        disposition: i.disposition,
    }
}

/// Whether `id` is a Chromium-family browser.
pub open spec fn is_chromium_browser(id: Seq<char>) -> bool {
    id == "com.google.Chrome"@ || id == "com.microsoft.edgemac"@ || id == "com.brave.Browser"@
}

/// The request that opens the link with parts `url` in `profile`: the
/// profile's launch arguments, the browser's new-window flag where a new
/// window is wanted, then the link; none for an unsupported browser.
pub open spec fn intent_for(
    profile: ProfileView,
    url: (Seq<char>, Seq<char>, Option<Seq<char>>),
    disposition: OpenDisposition,
) -> Option<IntentView> {
    if is_chromium_browser(profile.browser_id) || profile.browser_id == firefox_id() {
        let flag = if is_chromium_browser(profile.browser_id) {
            "--new-window"@
        } else {
            "-new-window"@
        };
        Some(
            IntentView {
                browser_id: profile.browser_id,
                profile_id: Some(profile.profile_id),
                url,
                args: open_args(
                    profile.launch_args,
                    if disposition == OpenDisposition::NewWindow {
                        Some(flag)
                    } else {
                        None
                    },
                    url.0,
                ),
                disposition,
            },
        )
    } else {
        None
    }
}

/// The first of `profiles` that is profile `profile` of `browser`.
pub open spec fn find_profile(profiles: Seq<ProfileView>, browser: Seq<char>, profile: Seq<char>) -> Option<int> {
    if exists|i: int|
        0 <= i < profiles.len() && (#[trigger] profiles[i]).browser_id == browser
            && profiles[i].profile_id == profile {
        Some(
            choose|i: int|
                0 <= i < profiles.len() && (#[trigger] profiles[i]).browser_id == browser
                    && profiles[i].profile_id == profile && forall|j: int|
                    0 <= j < i ==> !((#[trigger] profiles[j]).browser_id == browser
                        && profiles[j].profile_id == profile),
        )
    } else {
        None
    }
}

proof fn lemma_find_profile(profiles: Seq<ProfileView>, browser: Seq<char>, profile: Seq<char>, i: int)
    requires
        0 <= i < profiles.len(),
        profiles[i].browser_id == browser && profiles[i].profile_id == profile,
        forall|j: int|
            0 <= j < i ==> !((#[trigger] profiles[j]).browser_id == browser
                && profiles[j].profile_id == profile),
    ensures
        find_profile(profiles, browser, profile) == Some(i),
{
    assert(exists|k: int|
        0 <= k < profiles.len() && (#[trigger] profiles[k]).browser_id == browser
            && profiles[k].profile_id == profile && forall|j: int|
            0 <= j < k ==> !((#[trigger] profiles[j]).browser_id == browser
                && profiles[j].profile_id == profile)) by {
        assert(profiles[i].browser_id == browser);
    }
    let k = find_profile(profiles, browser, profile)->0;
    if k < i {
        assert(!(profiles[k].browser_id == browser && profiles[k].profile_id == profile));
    }
    if i < k {
        assert(!(profiles[i].browser_id == browser && profiles[i].profile_id == profile));
    }
}

/// A candidate for a new target window is opened in a new window: where
/// its profile was scanned and its browser is supported, it is launched
/// with disposition `NewWindow`, and its arguments end with the browser's
/// new-window flag (`--new-window` for Chromium browsers, `-new-window`
/// for Firefox) followed by the link, after the profile's own arguments.
/// A candidate for a named profile is opened in an existing window, and a
/// candidate for an active profile in its active window, their arguments
/// being the profile's own followed by the link alone.
pub proof fn law_new_target_window_opens_a_new_window(
    c: crate::routing::CandidateView,
    browsers: Seq<BrowserInstallation>,
    url: (Seq<char>, Seq<char>, Option<Seq<char>>),
    k: int,
)
    requires
        c.profile_id is Some,
        0 <= k < all_profiles(browsers).len(),
        all_profiles(browsers)[k].browser_id == c.browser_id,
        all_profiles(browsers)[k].profile_id == c.profile_id->0,
        forall|j: int|
            0 <= j < k ==> !((#[trigger] all_profiles(browsers)[j]).browser_id == c.browser_id
                && all_profiles(browsers)[j].profile_id == c.profile_id->0),
        is_chromium_browser(c.browser_id) || c.browser_id == firefox_id(),
    ensures
        c.kind == CandidateKind::NewTargetWindow ==> (step_for(c, browsers, url) matches StepView::Launch(
            _,
            i,
        ) && i.disposition == OpenDisposition::NewWindow && i.args == all_profiles(browsers)[k].launch_args
            + seq![
            if is_chromium_browser(c.browser_id) {
                "--new-window"@
            } else {
                "-new-window"@
            },
            url.0,
        ]),
        c.kind == CandidateKind::SpecifiedProfile ==> (step_for(c, browsers, url) matches StepView::Launch(
            _,
            i,
        ) && i.disposition == OpenDisposition::ExistingWindow && i.args == all_profiles(browsers)[k].launch_args
            + seq![url.0]),
        (c.kind == CandidateKind::ActiveInBrowser || c.kind == CandidateKind::GloballyActive) ==> (step_for(
            c,
            browsers,
            url,
        ) matches StepView::Launch(_, i) && i.disposition == OpenDisposition::ActiveWindow && i.args
            == all_profiles(browsers)[k].launch_args + seq![url.0]),
{
    lemma_find_profile(all_profiles(browsers), c.browser_id, c.profile_id->0, k);
    let lp = all_profiles(browsers)[k].launch_args;
    if is_chromium_browser(c.browser_id) {
        assert(lp + seq!["--new-window"@] + seq![url.0] =~= lp + seq!["--new-window"@, url.0]);
    } else {
        assert(lp + seq!["-new-window"@] + seq![url.0] =~= lp + seq!["-new-window"@, url.0]);
    }
    assert(lp + Seq::<Seq<char>>::empty() + seq![url.0] =~= lp + seq![url.0]);
}

/// A candidate for a browser's default profile is launched as it is: in
/// that browser, with no profile, in an existing window, with the link as
/// its only argument.
pub proof fn law_browser_default_opens_the_link_alone(
    c: crate::routing::CandidateView,
    browsers: Seq<BrowserInstallation>,
    url: (Seq<char>, Seq<char>, Option<Seq<char>>),
)
    requires
        c.kind == CandidateKind::BrowserDefault,
    ensures
        step_for(c, browsers, url) matches StepView::Launch(_, i) && i.browser_id == c.browser_id
            && i.profile_id is None && i.disposition == OpenDisposition::ExistingWindow && i.args
            == seq![url.0] && i.url == url,
{
}

/// One candidate of an open decision, made ready to try.
pub enum StepView {
    /// A candidate that names no profile: passed over.
    Skip(Option<Seq<char>>),
    /// A candidate whose profile no scan found.
    Unavailable(Option<Seq<char>>),
    /// A candidate that cannot be opened, with the reason.
    Refused(Option<Seq<char>>, Seq<char>),
    /// A candidate to launch.
    Launch(Option<Seq<char>>, IntentView),
}

/// The step for candidate `c`: the browser's default opening takes the
/// link alone; a profile candidate is opened as the scan found the
/// profile.
pub open spec fn step_for(
    c: crate::routing::CandidateView,
    browsers: Seq<BrowserInstallation>,
    url: (Seq<char>, Seq<char>, Option<Seq<char>>),
) -> StepView {
    let ident = candidate_identity(c);
    let disposition = disposition_for(c.kind);
    if c.kind == CandidateKind::BrowserDefault {
        StepView::Launch(
            ident,
            IntentView {
                browser_id: c.browser_id,
                profile_id: None,
                url,
                args: seq![url.0],
                disposition,
            },
        )
    } else {
        match c.profile_id {
            None => StepView::Skip(ident),
            Some(p) => match find_profile(all_profiles(browsers), c.browser_id, p) {
                None => StepView::Unavailable(ident),
                Some(k) => match intent_for(all_profiles(browsers)[k], url, disposition) {
                    Some(i) => StepView::Launch(ident, i),
                    None => StepView::Refused(ident, "unsupported browser"@),
                },
            },
        }
    }
}

/// The steps for a decision's candidates, in order.
pub open spec fn plan_for(
    candidates: Seq<crate::routing::CandidateView>,
    browsers: Seq<BrowserInstallation>,
    url: (Seq<char>, Seq<char>, Option<Seq<char>>),
) -> Seq<StepView> {
    candidates.map_values(|c: crate::routing::CandidateView| step_for(c, browsers, url))
}

/// One candidate of an open decision, made ready to try.
#[derive(Debug)]
pub enum OpenStep {
    Skip { identity: Option<String> },
    Unavailable { identity: Option<String> },
    Refused { identity: Option<String>, error: String },
    Launch { identity: Option<String>, intent: BrowserOpenIntent },
}

impl View for OpenStep {
    type V = StepView;

    open spec fn view(&self) -> StepView {
        match self {
            OpenStep::Skip { identity } => StepView::Skip(opt_text(*identity)),
            OpenStep::Unavailable { identity } => StepView::Unavailable(opt_text(*identity)),
            OpenStep::Refused { identity, error } => StepView::Refused(opt_text(*identity), error@),
            OpenStep::Launch { identity, intent } => StepView::Launch(
                opt_text(*identity),
                intent_view(*intent),
            ),
        }
    }
}

/// The views of a list of steps.
pub open spec fn step_views(v: Seq<OpenStep>) -> Seq<StepView> {
    v.map_values(|s: OpenStep| s@)
}

/// Where trying the steps from `i` on stops, given the identity and the
/// error left by the steps before: at the next launch (or the end), with
/// the identity of the last step passed and the last error met. A step
/// without a profile leaves the error; a missing profile gives
/// `profile_unavailable`; a refused step gives its reason.
pub open spec fn scan_steps(
    steps: Seq<StepView>,
    i: int,
    identity: Option<Seq<char>>,
    error: Option<Seq<char>>,
) -> (int, Option<Seq<char>>, Option<Seq<char>>)
    decreases steps.len() - i,
{
    if i < 0 || i >= steps.len() {
        (steps.len() as int, identity, error)
    } else {
        match steps[i] {
            StepView::Skip(id) => scan_steps(steps, i + 1, id, error),
            StepView::Unavailable(id) => scan_steps(steps, i + 1, id, Some("profile_unavailable"@)),
            StepView::Refused(id, e) => scan_steps(steps, i + 1, id, Some(e)),
            StepView::Launch(id, _) => (i, id, error),
        }
    }
}

proof fn lemma_scan_bounds(steps: Seq<StepView>, i: int, identity: Option<Seq<char>>, error: Option<Seq<char>>)
    ensures
        ({
            let (j, _, _) = scan_steps(steps, i, identity, error);
            (j == steps.len() || (0 <= j < steps.len() && steps[j] is Launch)) && (0 <= i ==> i
                <= j || j == steps.len())
        }),
    decreases steps.len() - i,
{
    if 0 <= i < steps.len() {
        match steps[i] {
            StepView::Launch(_, _) => {},
            StepView::Skip(id) => lemma_scan_bounds(steps, i + 1, id, error),
            StepView::Unavailable(id) => lemma_scan_bounds(
                steps,
                i + 1,
                id,
                Some("profile_unavailable"@),
            ),
            StepView::Refused(id, e) => lemma_scan_bounds(steps, i + 1, id, Some(e)),
        }
    }
}

/// An open decision being tried, candidate by candidate.
#[derive(Debug)]
pub struct OpenProgress {
    pub steps: Vec<OpenStep>,
    pub next: usize,
    pub last_identity: Option<String>,
    pub last_error: Option<String>,
    pub url: WebUrl,
    pub source_app: String,
    pub rule_id: Option<String>,
}

/// What the caller does next with an open decision.
#[derive(Debug)]
pub enum OpenAction {
    /// Launch this request, then report how it went with the progress.
    Launch(BrowserOpenIntent, OpenProgress),
    /// The link is done with.
    Finished(Result<RouteDisposition, String>),
}

/// How routing a link starts.
#[derive(Debug)]
pub enum RouteStart {
    /// Nothing is left to do.
    Settled(RouteDisposition),
    /// The candidates are to be tried with `advance_open`.
    Opening(OpenProgress),
}

/// The `Debug` form of a text: the text in double quotes, with quotes,
/// backslashes and characters that do not print escaped.
pub uninterp spec fn debug_quoted(s: Seq<char>) -> Seq<char>;

/// Writes a text in its `Debug` form: std's `Debug` for `str`, through
/// `format!("{:?}", ..)`. The contract names the result `debug_quoted`
/// of the text and says nothing of how each character is escaped.
#[verifier::external_body]
fn debug_text(s: &str) -> (r: String)
    ensures
        r@ == debug_quoted(s@),
{
    format!("{:?}", s)
}

/// The reason a link failed, as the log records it.
pub open spec fn reason_text(r: crate::routing::ReasonView) -> Seq<char> {
    match r {
        crate::routing::ReasonView::MatchedRule(id) => "MatchedRule(RuleId("@ + debug_quoted(id)
            + "))"@,
        crate::routing::ReasonView::BuiltInSameBrowser => "BuiltInSameBrowser"@,
        crate::routing::ReasonView::NoMatchingRule => "NoMatchingRule"@,
        crate::routing::ReasonView::UnsupportedScheme => "UnsupportedScheme"@,
        crate::routing::ReasonView::InvalidUrl => "InvalidUrl"@,
        crate::routing::ReasonView::Paused => "Paused"@,
        crate::routing::ReasonView::AskNext => "AskNext"@,
    }
}

/// The reason a link failed, as the log records it.
fn reason_string(reason: &crate::routing::DecisionReason) -> (r: String)
    ensures
        r@ == reason_text(reason@),
{
    match reason {
        crate::routing::DecisionReason::MatchedRule(id) => {
            let mut s = String::from_str("MatchedRule(RuleId(");
            let e = debug_text(id.as_str());
            s.append(e.as_str());
            s.append("))");
            s
        },
        crate::routing::DecisionReason::BuiltInSameBrowser => String::from_str("BuiltInSameBrowser"),
        crate::routing::DecisionReason::NoMatchingRule => String::from_str("NoMatchingRule"),
        crate::routing::DecisionReason::UnsupportedScheme => String::from_str("UnsupportedScheme"),
        crate::routing::DecisionReason::InvalidUrl => String::from_str("InvalidUrl"),
        crate::routing::DecisionReason::Paused => String::from_str("Paused"),
        crate::routing::DecisionReason::AskNext => String::from_str("AskNext"),
    }
}

/// A copy of an open request.
fn copy_intent(i: &BrowserOpenIntent) -> (r: BrowserOpenIntent)
    ensures
        intent_view(r) == intent_view(*i),
{
    let args = crate::browser::copy_strings(&i.args);
    assert(texts(args@) =~= texts(i.args@));
    BrowserOpenIntent {
        browser_id: i.browser_id.clone(),
        profile_id: match &i.profile_id {
            Some(p) => Some(p.clone()),
            None => None,
        },
        url: i.url.clone(),
        args,
        disposition: i.disposition,
    }
}

/// A copy of an optional string.
fn copy_text(s: &Option<String>) -> (r: Option<String>)
    ensures
        opt_text(r) == opt_text(*s),
{
    match s {
        Some(t) => Some(t.clone()),
        None => None,
    }
}

/// The text of an optional string, borrowed.
fn borrow_text(s: &Option<String>) -> (r: Option<&str>)
    ensures
        crate::diagnostics::opt_str(r) == opt_text(*s),
{
    match s {
        Some(t) => Some(t.as_str()),
        None => None,
    }
}

/// Whether a snapshot is the one a state gives: one session per open
/// profile, each available, carrying the profile's recorded activation.
pub open spec fn is_snapshot_of(
    r: RuntimeSnapshot,
    available: Seq<(Seq<char>, Seq<char>)>,
    recent: Seq<(Seq<char>, Seq<char>, u64)>,
) -> bool {
    &&& r.sessions@.len() == available.len()
    &&& forall|i: int|
        0 <= i < r.sessions@.len() ==> {
            let s = #[trigger] r.sessions@[i];
            &&& (s.browser_id@, s.profile_id@) == available[i]
            &&& s.windows@.len() == 1
            &&& s.windows@[0].0@ == "observed-browser-window"@
            &&& !s.is_incognito
            &&& s.last_user_activation == activation_of(recent, s.browser_id@, s.profile_id@)
        }
    &&& r.source_identity is None
}

impl DesktopService {
    /// The request that opens `url` in `profile` with the given disposition,
    /// built by the profile's browser adapter; an unsupported browser is an
    /// error.
    pub fn build_open_intent(&self, profile: &BrowserProfile, url: &WebUrl, disposition: OpenDisposition) -> (r: Result<BrowserOpenIntent, String>)
        ensures
            match intent_for(profile@, url.parts(), disposition) {
                Some(iv) => r matches Ok(i) && intent_view(i) == iv,
                None => r matches Err(m) && m@ == "unsupported browser"@,
            },
    {
        let id = profile.browser_id.as_str();
        let built = if crate::text::text_eq(id, "com.google.Chrome") {
            ChromeAdapter::adapter().build_open_intent(profile, url, disposition)
        } else if crate::text::text_eq(id, "com.microsoft.edgemac") {
            EdgeAdapter::adapter().build_open_intent(profile, url, disposition)
        } else if crate::text::text_eq(id, "com.brave.Browser") {
            BraveAdapter::adapter().build_open_intent(profile, url, disposition)
        } else if crate::text::text_eq(id, "org.mozilla.firefox") {
            FirefoxAdapter.build_open_intent(profile, url, disposition)
        } else {
            return Err(String::from_str("unsupported browser"));
        };
        match built {
            Ok(intent) => {
                assert(intent_view(intent) == intent_for(profile@, url.parts(), disposition)->0);
                Ok(intent)
            },
            Err(e) => Err(e.message()),
        }
    }

    /// The first profile a scan found that is profile `profile` of
    /// `browser`.
    fn find_discovered(&self, browser: &str, profile: &str) -> (r: Option<&BrowserProfile>)
        ensures
            match find_profile(all_profiles(self.browsers@), browser@, profile@) {
                Some(k) => r matches Some(p) && p@ == all_profiles(self.browsers@)[k],
                None => r is None,
            },
    {
        let ghost all = all_profiles(self.browsers@);
        let mut i: usize = 0;
        while i < self.browsers.len()
            invariant
                i <= self.browsers@.len(),
                all == all_profiles(self.browsers@),
                forall|k: int|
                    0 <= k < all_profiles(self.browsers@.subrange(0, i as int)).len() ==> !((
                    #[trigger] all_profiles(self.browsers@.subrange(0, i as int))[k]).browser_id
                        == browser@ && all_profiles(self.browsers@.subrange(0, i as int))[k].profile_id
                        == profile@),
            decreases self.browsers.len() - i,
        {
            let profiles = &self.browsers[i].profiles;
            let ghost before = all_profiles(self.browsers@.subrange(0, i as int));
            let ghost mine = profiles@.map_values(|p: BrowserProfile| p@);
            assert(self.browsers@.subrange(0, i + 1).drop_last() =~= self.browsers@.subrange(
                0,
                i as int,
            ));
            assert(all_profiles(self.browsers@.subrange(0, i + 1)) == before + mine);
            proof {
                lemma_all_profiles_prefix(self.browsers@, i + 1);
            }
            let mut j: usize = 0;
            while j < profiles.len()
                invariant
                    i < self.browsers@.len(),
                    all == all_profiles(self.browsers@),
                    profiles == self.browsers@[i as int].profiles,
                    before == all_profiles(self.browsers@.subrange(0, i as int)),
                    all_profiles(self.browsers@.subrange(0, i + 1)) == before + mine,
                    all_profiles(self.browsers@.subrange(0, i + 1)).len() <= all.len(),
                    forall|k: int|
                        0 <= k < all_profiles(self.browsers@.subrange(0, i + 1)).len() ==> #[trigger] all[k]
                            == all_profiles(self.browsers@.subrange(0, i + 1))[k],
                    forall|k: int|
                        0 <= k < before.len() ==> !((#[trigger] before[k]).browser_id == browser@
                            && before[k].profile_id == profile@),
                    j <= profiles@.len(),
                    mine == profiles@.map_values(|p: BrowserProfile| p@),
                    forall|k: int|
                        0 <= k < j ==> !((#[trigger] mine[k]).browser_id == browser@
                            && mine[k].profile_id == profile@),
                decreases profiles.len() - j,
            {
                let pr = &profiles[j];
                assert(mine[j as int] == pr@);
                if crate::text::text_eq(pr.browser_id.as_str(), browser) && crate::text::text_eq(
                    pr.profile_id.as_str(),
                    profile,
                ) {
                    proof {
                        let n = before.len() + j;
                        assert(all[n] == pr@);
                        assert forall|k: int|
                            0 <= k < n implies !((#[trigger] all[k]).browser_id == browser@
                            && all[k].profile_id == profile@) by {
                            if k < before.len() {
                                assert(all[k] == before[k]);
                            } else {
                                assert(all[k] == mine[k - before.len()]);
                            }
                        }
                        lemma_find_profile(all, browser@, profile@, n);
                    }
                    return Some(pr);
                }
                j = j + 1;
            }
            assert forall|k: int|
                0 <= k < all_profiles(self.browsers@.subrange(0, i + 1)).len() implies !((
            #[trigger] all_profiles(self.browsers@.subrange(0, i + 1))[k]).browser_id == browser@
                && all_profiles(self.browsers@.subrange(0, i + 1))[k].profile_id == profile@) by {
                if k < before.len() {
                    assert(all_profiles(self.browsers@.subrange(0, i + 1))[k] == before[k]);
                } else {
                    assert(all_profiles(self.browsers@.subrange(0, i + 1))[k] == mine[k
                        - before.len()]);
                }
            }
            i = i + 1;
        }
        assert(self.browsers@.subrange(0, self.browsers@.len() as int) =~= self.browsers@);
        None
    }

    /// The step for one candidate of an open decision.
    fn step_for_candidate(&self, candidate: &OpenCandidate, url: &WebUrl) -> (r: OpenStep)
        ensures
            r@ == step_for(candidate@, self.browsers@, url.parts()),
    {
        let disposition = candidate_disposition(candidate);
        let identity = candidate_identity_id(candidate);
        if candidate.kind == CandidateKind::BrowserDefault {
            let mut args: Vec<String> = Vec::new();
            args.push(url.as_str().to_owned());
            let intent = BrowserOpenIntent {
                browser_id: candidate.browser_id.clone(),
                profile_id: None,
                url: url.clone(),
                args,
                disposition,
            };
            assert(texts(intent.args@) =~= seq![url.parts().0]);
            return OpenStep::Launch { identity, intent };
        }
        let profile_id = match &candidate.profile_id {
            Some(p) => p,
            None => return OpenStep::Skip { identity },
        };
        match self.find_discovered(candidate.browser_id.as_str(), profile_id.as_str()) {
            None => OpenStep::Unavailable { identity },
            Some(profile) => match self.build_open_intent(profile, url, disposition) {
                Ok(intent) => OpenStep::Launch { identity, intent },
                Err(error) => OpenStep::Refused { identity, error },
            },
        }
    }

    /// Whether `route_url` can decide on a link from `source_app` in the
    /// current state: the rule that routing would use names what its
    /// target needs.
    pub fn can_route(&self, url: &WebUrl, source_app: &str) -> (r: bool)
        ensures
            r == routable_for(*url, source_app@, self.ask_next, self.paused, self.config),
    {
        let context = RouteContext {
            url: url.clone(),
            source_app: AppId::new(source_app),
            event_id: String::from_str("check"),
            ask_next: self.ask_next,
            paused: self.paused,
        };
        let runtime = self.runtime_snapshot();
        assert(routable(context, self.config) == routable_for(
            *url,
            source_app@,
            self.ask_next,
            self.paused,
            self.config,
        ));
        self.state.engine.try_decide(&context, &self.config, &runtime).is_some()
    }

    /// The decision the router would make for a link from `source_app` now.
    pub fn preview(&self, source_app: &str, url: &WebUrl) -> (r: RouteDecision)
        requires
            routable_for(*url, source_app@, self.ask_next, self.paused, self.config),
        ensures
            exists|rt: RuntimeSnapshot|
                is_snapshot_of(rt, self.available_view(), self.recent_view()) && r@ == decision_for(
                    *url,
                    source_app@,
                    self.ask_next,
                    self.paused,
                    self.config,
                    rt,
                ),
    {
        let runtime = self.runtime_snapshot();
        let context = RouteContext {
            url: url.clone(),
            source_app: AppId::new(source_app),
            event_id: String::from_str("preview"),
            ask_next: self.ask_next,
            paused: self.paused,
        };
        proof {
            lemma_routable_same_url(*url, context.url, source_app@, self.ask_next, self.paused, self.config);
        }
        let d = self.state.engine.decide(&context, &self.config, &runtime);
        assert(is_snapshot_of(runtime, self.available_view(), self.recent_view()));
        proof {
            lemma_decision_same_url(*url, context.url, source_app@, self.ask_next, self.paused, self.config, runtime);
        }
        d
    }
}

/// Routing depends on a link only through its parts.
proof fn lemma_routable_same_url(a: WebUrl, b: WebUrl, source: Seq<char>, ask_next: bool, paused: bool, config: RouterConfig)
    requires
        a.parts() == b.parts(),
    ensures
        routable_for(a, source, ask_next, paused, config) == routable_for(b, source, ask_next, paused, config),
{
    assert(a.scheme_text() == b.scheme_text());
    assert(crate::engine::host_spec(a) == crate::engine::host_spec(b));
}

/// The decision depends on a link only through its parts.
proof fn lemma_decision_same_url(
    a: WebUrl,
    b: WebUrl,
    source: Seq<char>,
    ask_next: bool,
    paused: bool,
    config: RouterConfig,
    runtime: RuntimeSnapshot,
)
    requires
        a.parts() == b.parts(),
    ensures
        decision_for(a, source, ask_next, paused, config, runtime) == decision_for(
            b,
            source,
            ask_next,
            paused,
            config,
            runtime,
        ),
{
    assert(a.scheme_text() == b.scheme_text());
    assert(crate::engine::host_spec(a) == crate::engine::host_spec(b));
}


/// What starting to route a link does, given the decision `d`: asking
/// queues the link for a choice and logs `ask`; failing logs `failed` with
/// the reason; opening hands back the candidates as steps to try, logging
/// nothing yet.
pub open spec fn route_started(
    r: RouteStart,
    fin: DesktopService,
    old: DesktopService,
    url: WebUrl,
    source: Seq<char>,
    now: u64,
    d: crate::routing::DecisionView,
) -> bool {
    match d.final_action {
        crate::routing::FinalAction::Ask => {
            &&& r matches RouteStart::Settled(RouteDisposition::Ask)
            &&& fin.pending_view() == old.pending_view().push(
                PendingView {
                    id: old.next_id(),
                    domain: recorded_domain(url.host_text()),
                    source_app: source,
                    rule_id: d.matched_rule_id,
                    url: url.parts(),
                },
            )
            &&& fin.diagnostics.events_view() == keep_last(
                old.diagnostics.events_view().push(
                    route_event(now, source, url.host_text(), "ask"@, d.matched_rule_id, None, None),
                ),
                old.diagnostics.limit_spec(),
            )
        },
        crate::routing::FinalAction::Fail => {
            &&& r matches RouteStart::Settled(RouteDisposition::Failed)
            &&& fin.pending_view() == old.pending_view()
            &&& fin.diagnostics.events_view() == keep_last(
                old.diagnostics.events_view().push(
                    route_event(
                        now,
                        source,
                        url.host_text(),
                        "failed"@,
                        d.matched_rule_id,
                        None,
                        Some(reason_text(d.reason)),
                    ),
                ),
                old.diagnostics.limit_spec(),
            )
        },
        crate::routing::FinalAction::Open => {
            &&& r matches RouteStart::Opening(p)
            &&& step_views(p.steps@) == plan_for(d.candidates, old.browsers@, url.parts())
            &&& p.next == 0
            &&& p.last_identity is None
            &&& p.last_error is None
            &&& p.url.parts() == url.parts()
            &&& p.source_app@ == source
            &&& opt_text(p.rule_id) == d.matched_rule_id
            &&& fin.pending_view() == old.pending_view()
            &&& fin.diagnostics.events_view() == old.diagnostics.events_view()
        },
    }
}

/// What reporting on an open does: a launch that succeeded ends the link as
/// opened (logged with the identity launched); otherwise the steps are
/// tried on from where they stopped, up to the next launch to make, or to
/// the end, where the link fails with the last error met (logged).
pub open spec fn open_advanced(
    r: OpenAction,
    progress: OpenProgress,
    executed: Option<Result<(), String>>,
    now: u64,
    old_events: Seq<EventView>,
    new_events: Seq<EventView>,
    limit: nat,
) -> bool {
    match executed {
        Some(Ok(())) => {
            &&& r matches OpenAction::Finished(Ok(RouteDisposition::Opened))
            &&& new_events == keep_last(
                old_events.push(
                    route_event(
                        now,
                        progress.source_app@,
                        progress.url.host_text(),
                        "opened"@,
                        opt_text(progress.rule_id),
                        opt_text(progress.last_identity),
                        None,
                    ),
                ),
                limit,
            )
        },
        _ => {
            let error0 = match executed {
                Some(Err(e)) => Some(e@),
                _ => opt_text(progress.last_error),
            };
            let steps = step_views(progress.steps@);
            let (j, identity, error) = scan_steps(
                steps,
                progress.next as int,
                opt_text(progress.last_identity),
                error0,
            );
            if j < steps.len() {
                &&& new_events == old_events
                &&& match (r, steps[j]) {
                    (OpenAction::Launch(intent, p), StepView::Launch(_, iv)) => {
                        &&& intent_view(intent) == iv
                        &&& step_views(p.steps@) == steps
                        &&& p.next == j + 1
                        &&& opt_text(p.last_identity) == identity
                        &&& opt_text(p.last_error) == error
                        &&& p.url.parts() == progress.url.parts()
                        &&& p.source_app@ == progress.source_app@
                        &&& opt_text(p.rule_id) == opt_text(progress.rule_id)
                    },
                    _ => false,
                }
            } else {
                &&& r matches OpenAction::Finished(Err(m)) && m@ == match error {
                    Some(e) => e,
                    None => "route had no executable candidate"@,
                }
                &&& new_events == keep_last(
                    old_events.push(
                        route_event(
                            now,
                            progress.source_app@,
                            progress.url.host_text(),
                            "failed"@,
                            opt_text(progress.rule_id),
                            identity,
                            error,
                        ),
                    ),
                    limit,
                )
            }
        },
    }
}

impl DesktopService {
    /// Starts routing a link from `source_app`: it gets the next event
    /// identifier, the engine decides on the current state, and the
    /// ask-next request is used up. An `Ask` decision queues the link for a
    /// choice; a `Fail` decision is logged; an `Open` decision is handed
    /// back as steps that `advance_open` walks through.
    pub fn route_url(&mut self, url: &WebUrl, source_app: &str, now: u64) -> (r: RouteStart)
        requires
            old(self).wf(),
            old(self).next_id() < u64::MAX,
            routable_for(*url, source_app@, old(self).ask_next, old(self).paused, old(self).config),
        ensures
            final(self).wf(),
            !final(self).ask_next,
            final(self).next_id() == old(self).next_id() + 1,
            final(self).paused == old(self).paused,
            final(self).config == old(self).config,
            final(self).config_error == old(self).config_error,
            final(self).browsers == old(self).browsers,
            final(self).available_view() == old(self).available_view(),
            final(self).recent_view() == old(self).recent_view(),
            final(self).diagnostics.limit_spec() == old(self).diagnostics.limit_spec(),
            exists|rt: RuntimeSnapshot|
                is_snapshot_of(rt, old(self).available_view(), old(self).recent_view())
                    && route_started(
                    r,
                    *final(self),
                    *old(self),
                    *url,
                    source_app@,
                    now,
                    decision_for(
                        *url,
                        source_app@,
                        old(self).ask_next,
                        old(self).paused,
                        old(self).config,
                        rt,
                    ),
                ),
    {
        let ghost old_self = *self;
        let event_id = self.state.next_event_id;
        self.state.next_event_id = event_id + 1;
        let runtime = self.runtime_snapshot();
        let context = RouteContext {
            url: url.clone(),
            source_app: AppId::new(source_app),
            event_id: crate::text::decimal(event_id),
            ask_next: self.ask_next,
            paused: self.paused,
        };
        proof {
            lemma_routable_same_url(*url, context.url, source_app@, self.ask_next, self.paused, self.config);
        }
        let decision = self.state.engine.decide(&context, &self.config, &runtime);
        proof {
            lemma_decision_same_url(
                *url,
                context.url,
                source_app@,
                self.ask_next,
                self.paused,
                self.config,
                runtime,
            );
        }
        let ghost d = decision@;
        assert(is_snapshot_of(runtime, old_self.available_view(), old_self.recent_view()));
        assert(d == decision_for(
            *url,
            source_app@,
            old_self.ask_next,
            old_self.paused,
            old_self.config,
            runtime,
        ));
        self.ask_next = false;
        let rule_id: Option<String> = match &decision.matched_rule_id {
            Some(id) => Some(id.to_string()),
            None => None,
        };
        assert(opt_text(rule_id) == d.matched_rule_id);
        match decision.final_action {
            crate::routing::FinalAction::Ask => {
                let domain = match url.host_str() {
                    Some(h) => crate::text::to_ascii_lower(h),
                    None => String::new(),
                };
                let ghost before = self.pending_view();
                let route = PendingRoute {
                    id: event_id,
                    domain,
                    source_app: source_app.to_owned(),
                    rule_id: copy_text(&rule_id),
                    url: url.clone(),
                };
                self.state.pending_routes.push(route);
                assert(self.pending_view() =~= before.push(
                    PendingView {
                        id: event_id,
                        domain: recorded_domain(url.host_text()),
                        source_app: source_app@,
                        rule_id: d.matched_rule_id,
                        url: url.parts(),
                    },
                ));
                self.diagnostics.record_route(now, source_app, url, "ask", borrow_text(&rule_id), None, None);
                let r = RouteStart::Settled(RouteDisposition::Ask);
                assert(route_started(r, *self, old_self, *url, source_app@, now, d));
                r
            },
            crate::routing::FinalAction::Fail => {
                let reason = reason_string(&decision.reason);
                self.diagnostics.record_route(
                    now,
                    source_app,
                    url,
                    "failed",
                    borrow_text(&rule_id),
                    None,
                    Some(reason),
                );
                let r = RouteStart::Settled(RouteDisposition::Failed);
                assert(route_started(r, *self, old_self, *url, source_app@, now, d));
                r
            },
            crate::routing::FinalAction::Open => {
                let ghost cands = decision.candidates@.map_values(|c: OpenCandidate| c@);
                let mut steps: Vec<OpenStep> = Vec::new();
                let mut i: usize = 0;
                while i < decision.candidates.len()
                    invariant
                        i <= decision.candidates@.len(),
                        cands == decision.candidates@.map_values(|c: OpenCandidate| c@),
                        step_views(steps@) == plan_for(cands.subrange(0, i as int), self.browsers@, url.parts()),
                    decreases decision.candidates.len() - i,
                {
                    let step = self.step_for_candidate(&decision.candidates[i], url);
                    let ghost before = step_views(steps@);
                    steps.push(step);
                    assert(step_views(steps@) =~= before.push(step@));
                    assert(cands.subrange(0, i + 1) =~= cands.subrange(0, i as int).push(cands[i as int]));
                    assert(plan_for(cands.subrange(0, i + 1), self.browsers@, url.parts()) =~= plan_for(
                        cands.subrange(0, i as int),
                        self.browsers@,
                        url.parts(),
                    ).push(step_for(cands[i as int], self.browsers@, url.parts())));
                    i = i + 1;
                }
                assert(cands.subrange(0, cands.len() as int) =~= cands);
                let r = RouteStart::Opening(
                    OpenProgress {
                        steps,
                        next: 0,
                        last_identity: None,
                        last_error: None,
                        url: url.clone(),
                        source_app: source_app.to_owned(),
                        rule_id,
                    },
                );
                assert(route_started(r, *self, old_self, *url, source_app@, now, d));
                r
            },
        }
    }

    /// Goes on with an open decision, given how the last launch went (none
    /// before the first): a launch that succeeded ends the link as opened;
    /// otherwise the next launch to make is handed back, or, with none
    /// left, the link fails with the last error met. The outcome is logged
    /// once the link is done with.
    pub fn advance_open(&mut self, progress: OpenProgress, executed: Option<Result<(), String>>, now: u64) -> (r: OpenAction)
        requires
            old(self).wf(),
        ensures
            final(self).wf(),
            open_advanced(
                r,
                progress,
                executed,
                now,
                old(self).diagnostics.events_view(),
                final(self).diagnostics.events_view(),
                old(self).diagnostics.limit_spec(),
            ),
            final(self).diagnostics.limit_spec() == old(self).diagnostics.limit_spec(),
            final(self).pending_view() == old(self).pending_view(),
            final(self).next_id() == old(self).next_id(),
            final(self).ask_next == old(self).ask_next,
            final(self).paused == old(self).paused,
            final(self).config == old(self).config,
            final(self).config_error == old(self).config_error,
            final(self).browsers == old(self).browsers,
            final(self).available_view() == old(self).available_view(),
            final(self).recent_view() == old(self).recent_view(),
    {
        let ghost p0 = progress;
        let OpenProgress { steps, next, last_identity, last_error, url, source_app, rule_id } = progress;
        let error0 = match executed {
            Some(Ok(())) => {
                self.diagnostics.record_route(
                    now,
                    source_app.as_str(),
                    &url,
                    "opened",
                    borrow_text(&rule_id),
                    borrow_text(&last_identity),
                    None,
                );
                return OpenAction::Finished(Ok(RouteDisposition::Opened));
            },
            Some(Err(e)) => Some(e),
            None => last_error,
        };
        let ghost views = step_views(steps@);
        let ghost target = scan_steps(views, next as int, opt_text(last_identity), opt_text(error0));
        let mut identity = last_identity;
        let mut error = error0;
        let mut i: usize = next;
        let mut launch: Option<(BrowserOpenIntent, usize)> = None;
        while i < steps.len()
            invariant_except_break
                launch is None,
                scan_steps(views, i as int, opt_text(identity), opt_text(error)) == target,
            invariant
                views == step_views(steps@),
                next <= i,
            ensures
                launch is None ==> target == (steps@.len() as int, opt_text(identity), opt_text(error)),
                launch matches Some((intent, n)) ==> (n == i + 1 && i < steps@.len() && target == (
                    i as int,
                    opt_text(identity),
                    opt_text(error),
                ) && (views[i as int] matches StepView::Launch(_, iv) && intent_view(intent) == iv)),
            decreases steps.len() - i,
        {
            assert(views[i as int] == steps@[i as int]@);
            match &steps[i] {
                OpenStep::Skip { identity: id } => {
                    identity = copy_text(id);
                },
                OpenStep::Unavailable { identity: id } => {
                    identity = copy_text(id);
                    error = Some(String::from_str("profile_unavailable"));
                },
                OpenStep::Refused { identity: id, error: e } => {
                    identity = copy_text(id);
                    error = Some(e.clone());
                },
                OpenStep::Launch { identity: id, intent } => {
                    identity = copy_text(id);
                    launch = Some((copy_intent(intent), i + 1));
                    break;
                },
            }
            i = i + 1;
        }
        match launch {
            Some((intent, n)) => {
                assert(target == (i as int, opt_text(identity), opt_text(error)));
                OpenAction::Launch(
                    intent,
                    OpenProgress {
                        steps,
                        next: n,
                        last_identity: identity,
                        last_error: error,
                        url,
                        source_app,
                        rule_id,
                    },
                )
            },
            None => {
                assert(target == (steps@.len() as int, opt_text(identity), opt_text(error)));
                self.diagnostics.record_route(
                    now,
                    source_app.as_str(),
                    &url,
                    "failed",
                    borrow_text(&rule_id),
                    borrow_text(&identity),
                    copy_text(&error),
                );
                let message = match error {
                    Some(e) => e,
                    None => String::from_str("route had no executable candidate"),
                };
                OpenAction::Finished(Err(message))
            },
        }
    }

    /// The request that opens pending link `id` in profile `profile_id` of
    /// `browser_id`, in an existing window; an unknown link or profile, or
    /// an unsupported browser, is an error. Nothing changes either way.
    pub fn prepare_pending_choice(&self, id: u64, browser_id: &str, profile_id: &str) -> (r: Result<BrowserOpenIntent, String>)
        ensures
            match pending_index(self.pending_view(), id) {
                None => r matches Err(m) && m@ == "pending route was not found"@,
                Some(k) => match find_profile(all_profiles(self.browsers@), browser_id@, profile_id@) {
                    None => r matches Err(m) && m@ == "profile was not found"@,
                    Some(j) => match intent_for(
                        all_profiles(self.browsers@)[j],
                        self.pending_view()[k].url,
                        OpenDisposition::ExistingWindow,
                    ) {
                        Some(iv) => r matches Ok(i) && intent_view(i) == iv,
                        None => r matches Err(m) && m@ == "unsupported browser"@,
                    },
                },
            },
    {
        let index = match self.find_pending(id) {
            Some(k) => k,
            None => return Err(String::from_str("pending route was not found")),
        };
        let profile = match self.find_discovered(browser_id, profile_id) {
            Some(p) => p,
            None => return Err(String::from_str("profile was not found")),
        };
        let route = &self.state.pending_routes[index];
        assert(self.pending_view()[index as int].url == route.url.parts());
        self.build_open_intent(profile, &route.url, OpenDisposition::ExistingWindow)
    }

    /// Finishes choosing a profile for pending link `id`, given how opening
    /// it went: a failed open is handed back and the link stays pending; a
    /// successful one removes the link and logs it as opened in
    /// `<browser>/<profile>`.
    pub fn finish_pending_choice(
        &mut self,
        id: u64,
        browser_id: &str,
        profile_id: &str,
        executed: Result<(), String>,
        now: u64,
    ) -> (r: Result<(), String>)
        requires
            old(self).wf(),
        ensures
            final(self).wf(),
            match executed {
                Err(e) => r matches Err(m) && m@ == e@ && final(self).pending_view() == old(self).pending_view() && final(self).diagnostics == old(self).diagnostics,
                Ok(()) => match pending_index(old(self).pending_view(), id) {
                    None => r matches Err(m) && m@ == "pending route was not found"@ && final(self).pending_view() == old(self).pending_view() && final(self).diagnostics == old(self).diagnostics,
                    Some(k) => r is Ok && final(self).pending_view() == old(self).pending_view().remove(k)
                        && final(self).diagnostics.events_view() == keep_last(
                        old(self).diagnostics.events_view().push(
                            route_event(
                                now,
                                old(self).pending_view()[k].source_app,
                                old(self).pending_view()[k].url.2,
                                "opened"@,
                                old(self).pending_view()[k].rule_id,
                                Some(identity_text(browser_id@, profile_id@)),
                                None,
                            ),
                        ),
                        old(self).diagnostics.limit_spec(),
                    ),
                },
            },
            final(self).config == old(self).config,
            final(self).next_id() == old(self).next_id(),
            final(self).available_view() == old(self).available_view(),
            final(self).recent_view() == old(self).recent_view(),
            final(self).ask_next == old(self).ask_next,
            final(self).paused == old(self).paused,
    {
        match executed {
            Err(e) => return Err(e),
            Ok(()) => {},
        }
        let index = match self.find_pending(id) {
            Some(k) => k,
            None => return Err(String::from_str("pending route was not found")),
        };
        let ghost before = self.pending_view();
        let route = self.state.pending_routes.remove(index);
        assert(self.pending_view() =~= before.remove(index as int));
        let identity = identity_string(browser_id, profile_id);
        self.diagnostics.record_route(
            now,
            route.source_app.as_str(),
            &route.url,
            "opened",
            borrow_text(&route.rule_id),
            Some(identity.as_str()),
            None,
        );
        Ok(())
    }
}


// ---------------------------------------------------------------------------
// Scanning for browsers.
// ---------------------------------------------------------------------------

/// The capabilities of a Chromium-family browser.
pub open spec fn chromium_capabilities(c: BrowserCapabilities) -> bool {
    c.discover_profiles && !c.map_windows_to_profiles && c.open_in_existing_profile
        && c.create_profile_window && !c.distinguish_incognito
}

/// The capabilities of Firefox.
pub open spec fn firefox_capabilities(c: BrowserCapabilities) -> bool {
    c.discover_profiles && !c.map_windows_to_profiles && !c.open_in_existing_profile
        && c.create_profile_window && !c.distinguish_incognito
}

/// The views of a list of profiles.
pub open spec fn profile_views(v: Seq<BrowserProfile>) -> Seq<ProfileView> {
    v.map_values(|p: BrowserProfile| p@)
}

/// What a scan records of a browser: its descriptor, whether it is
/// installed, and, where it is, the profiles discovered or why discovery
/// failed; an uninstalled browser has no profile and no error.
pub open spec fn installation_is(
    r: BrowserInstallation,
    id: Seq<char>,
    name: Seq<char>,
    hint: Option<Seq<char>>,
    installed: bool,
    discovery: Result<Seq<ProfileView>, Seq<char>>,
) -> bool {
    &&& r.descriptor.id@ == id
    &&& r.descriptor.display_name@ == name
    &&& opt_text(r.descriptor.executable_hint) == hint
    &&& r.installed == installed
    &&& if installed {
        match discovery {
            Ok(ps) => profile_views(r.profiles@) == ps && r.error is None,
            Err(m) => r.profiles@.len() == 0 && opt_text(r.error) == Some(m),
        }
    } else {
        r.profiles@.len() == 0 && r.error is None
    }
}

/// What discovering a Chromium browser's profiles gives.
pub open spec fn chromium_discovery(id: Seq<char>, listing: Option<ProfileListing>) -> Result<Seq<ProfileView>, Seq<char>> {
    match listing {
        Some(l) => Ok(chromium_profiles(id, l)),
        None => Err("browser error: "@ + "browser data dir unknown"@),
    }
}

/// What discovering Firefox's profiles gives.
pub open spec fn firefox_discovery(profiles_ini: Option<Result<String, String>>) -> Result<Seq<ProfileView>, Seq<char>> {
    match profiles_ini {
        None => Err("browser error: "@ + "firefox data dir unknown"@),
        Some(Err(e)) => Err("browser error: "@ + ("cannot read profiles.ini: "@ + e@)),
        Some(Ok(content)) => Ok(parse_profiles_ini_spec(content@)),
    }
}

/// What the platform found of a browser: whether its executable is there,
/// and (for a Chromium browser) its data directory's listing or (for
/// Firefox) its `profiles.ini`, where they could be read.
#[derive(Debug)]
pub struct BrowserFindings {
    pub installed: bool,
    pub listing: Option<ProfileListing>,
    pub profiles_ini: Option<Result<String, String>>,
}

/// What a scan records of a Chromium browser.
pub fn chromium_installation(adapter: &ChromiumAdapter, installed: bool, listing: Option<&ProfileListing>) -> (r: BrowserInstallation)
    ensures
        installation_is(
            r,
            adapter.id_text(),
            adapter.name_text(),
            adapter.hint_text(),
            installed,
            chromium_discovery(
                adapter.id_text(),
                match listing {
                    Some(l) => Some(*l),
                    None => None,
                },
            ),
        ),
        chromium_capabilities(r.capabilities),
{
    let descriptor = adapter.descriptor();
    let capabilities = adapter.capabilities();
    let (profiles, error) = if installed {
        match adapter.discover_profiles(listing) {
            Ok(profiles) => (profiles, None),
            Err(e) => (Vec::new(), Some(e.message())),
        }
    } else {
        (Vec::new(), None)
    };
    BrowserInstallation { descriptor, capabilities, installed, profiles, error }
}

/// What a scan records of Firefox.
pub fn firefox_installation(installed: bool, profiles_ini: &Option<Result<String, String>>) -> (r: BrowserInstallation)
    ensures
        installation_is(
            r,
            firefox_id(),
            "Firefox"@,
            Some("/Applications/Firefox.app/Contents/MacOS/firefox"@),
            installed,
            firefox_discovery(*profiles_ini),
        ),
        firefox_capabilities(r.capabilities),
{
    let adapter = FirefoxAdapter;
    let descriptor = adapter.descriptor();
    let capabilities = adapter.capabilities();
    let (profiles, error) = if installed {
        match adapter.discover_profiles(profiles_ini) {
            Ok(profiles) => (profiles, None),
            Err(e) => (Vec::new(), Some(e.message())),
        }
    } else {
        (Vec::new(), None)
    };
    BrowserInstallation { descriptor, capabilities, installed, profiles, error }
}

impl DesktopService {
    /// Records what a scan found of Chrome, Edge, Brave and Firefox, in
    /// that order.
    pub fn scan_browsers(&mut self, chrome: BrowserFindings, edge: BrowserFindings, brave: BrowserFindings, firefox: BrowserFindings)
        ensures
            final(self).browsers@.len() == 4,
            installation_is(
                final(self).browsers@[0],
                "com.google.Chrome"@,
                "Google Chrome"@,
                Some("/Applications/Google Chrome.app/Contents/MacOS/Google Chrome"@),
                chrome.installed,
                chromium_discovery("com.google.Chrome"@, chrome.listing),
            ),
            installation_is(
                final(self).browsers@[1],
                "com.microsoft.edgemac"@,
                "Microsoft Edge"@,
                Some("/Applications/Microsoft Edge.app/Contents/MacOS/Microsoft Edge"@),
                edge.installed,
                chromium_discovery("com.microsoft.edgemac"@, edge.listing),
            ),
            installation_is(
                final(self).browsers@[2],
                "com.brave.Browser"@,
                "Brave Browser"@,
                Some("/Applications/Brave Browser.app/Contents/MacOS/Brave Browser"@),
                brave.installed,
                chromium_discovery("com.brave.Browser"@, brave.listing),
            ),
            installation_is(
                final(self).browsers@[3],
                firefox_id(),
                "Firefox"@,
                Some("/Applications/Firefox.app/Contents/MacOS/firefox"@),
                firefox.installed,
                firefox_discovery(firefox.profiles_ini),
            ),
            chromium_capabilities(final(self).browsers@[0].capabilities),
            chromium_capabilities(final(self).browsers@[1].capabilities),
            chromium_capabilities(final(self).browsers@[2].capabilities),
            firefox_capabilities(final(self).browsers@[3].capabilities),
            final(self).config == old(self).config,
            final(self).diagnostics == old(self).diagnostics,
            final(self).pending_view() == old(self).pending_view(),
            final(self).next_id() == old(self).next_id(),
            final(self).available_view() == old(self).available_view(),
            final(self).recent_view() == old(self).recent_view(),
            final(self).ask_next == old(self).ask_next,
            final(self).paused == old(self).paused,
    {
        let mut browsers: Vec<BrowserInstallation> = Vec::new();
        let c = ChromeAdapter::adapter();
        browsers.push(chromium_installation(&c, chrome.installed, chrome.listing.as_ref()));
        let e = EdgeAdapter::adapter();
        browsers.push(chromium_installation(&e, edge.installed, edge.listing.as_ref()));
        let b = BraveAdapter::adapter();
        browsers.push(chromium_installation(&b, brave.installed, brave.listing.as_ref()));
        browsers.push(firefox_installation(firefox.installed, &firefox.profiles_ini));
        self.browsers = browsers;
    }

    /// Replaces the open profiles with what the running browsers report,
    /// then records the frontmost application's last used profile where it
    /// is a supported browser.
    pub fn seed_running_browser_identities(
        &mut self,
        running: &Vec<(BrowserId, Vec<ProfileId>)>,
        frontmost: Option<String>,
        last_used: Option<ProfileId>,
        now: u64,
    )
        ensures
            final(self).config == old(self).config,
            final(self).browsers == old(self).browsers,
            final(self).diagnostics == old(self).diagnostics,
            final(self).pending_view() == old(self).pending_view(),
            final(self).next_id() == old(self).next_id(),
            final(self).ask_next == old(self).ask_next,
            final(self).paused == old(self).paused,
            ({
                let kept = kept_pairs(
                    running_pairs(running@),
                    old(self).browsers@,
                    running_pairs(running@).len() as int,
                );
                match frontmost {
                    Some(b) => if is_supported_browser(b@) && last_used is Some && discovered(
                        old(self).browsers@,
                        b@,
                        last_used->0@,
                    ) {
                        &&& recent_of(final(self).recent_view(), b@) == Some((last_used->0@, now))
                        &&& forall|x: Seq<char>|
                            x != b@ ==> recent_of(final(self).recent_view(), x) == recent_of(
                                old(self).recent_view(),
                                x,
                            )
                        &&& final(self).available_view() == with_pair(kept, (b@, last_used->0@))
                    } else {
                        final(self).recent_view() == old(self).recent_view()
                            && final(self).available_view() == kept
                    },
                    None => final(self).recent_view() == old(self).recent_view()
                        && final(self).available_view() == kept,
                }
            }),
    {
        self.refresh_running_browser_sessions(running);
        self.seed_frontmost_browser_identity(frontmost, last_used, now);
    }

    /// Follows the frontmost application: where it is a supported browser,
    /// refreshes the open profiles and records its last used profile as
    /// current; any other application changes nothing.
    pub fn observe_foreground_browser(
        &mut self,
        frontmost: Option<String>,
        running: &Vec<(BrowserId, Vec<ProfileId>)>,
        last_used: Option<ProfileId>,
        now: u64,
    )
        ensures
            final(self).config == old(self).config,
            final(self).browsers == old(self).browsers,
            final(self).diagnostics == old(self).diagnostics,
            final(self).pending_view() == old(self).pending_view(),
            final(self).next_id() == old(self).next_id(),
            final(self).ask_next == old(self).ask_next,
            final(self).paused == old(self).paused,
            ({
                let kept = kept_pairs(
                    running_pairs(running@),
                    old(self).browsers@,
                    running_pairs(running@).len() as int,
                );
                match frontmost {
                    Some(b) => if is_supported_browser(b@) {
                        if last_used is Some && discovered(old(self).browsers@, b@, last_used->0@) {
                            &&& recent_of(final(self).recent_view(), b@) == Some((last_used->0@, now))
                            &&& forall|x: Seq<char>|
                                x != b@ ==> recent_of(final(self).recent_view(), x) == recent_of(
                                    old(self).recent_view(),
                                    x,
                                )
                            &&& final(self).available_view() == with_pair(kept, (b@, last_used->0@))
                        } else {
                            final(self).recent_view() == old(self).recent_view()
                                && final(self).available_view() == kept
                        }
                    } else {
                        final(self).recent_view() == old(self).recent_view()
                            && final(self).available_view() == old(self).available_view()
                    },
                    None => final(self).recent_view() == old(self).recent_view()
                        && final(self).available_view() == old(self).available_view(),
                }
            }),
    {
        let bundle_id = match frontmost {
            Some(b) => b,
            None => return,
        };
        if supported_browser(bundle_id.as_str()) {
            self.refresh_running_browser_sessions(running);
            self.record_current_browser_identity(BrowserId::from_string(bundle_id), last_used, now);
        }
    }
}

} // verus!
