//! Properties of the desktop router's state that hold across its
//! operations: what happens to a link that is asked about or refused, the
//! one-time ask-next request, the sessions the router reports, what the
//! log keeps, and the running browsers reported once each.

use vstd::prelude::*;

use crate::desktop::{
    activation_of, is_snapshot_of, route_started, DesktopService, PendingView, RouteDisposition,
    RouteStart,
};
use crate::diagnostics::{recorded_domain, route_event};
use crate::engine::{decision_for, is_web_scheme};
use crate::routing::{FinalAction, RuntimeSnapshot};
use crate::web_url::WebUrl;

verus! {

/// A link arriving while the next link must be asked about is asked about,
/// whatever the rules say (unless routing is paused, which asks too).
pub proof fn law_ask_next_asks(
    url: WebUrl,
    source: Seq<char>,
    paused: bool,
    config: crate::config::RouterConfig,
    runtime: RuntimeSnapshot,
)
    ensures
        decision_for(url, source, true, paused, config, runtime).final_action == FinalAction::Ask,
{
}

/// A link whose scheme is not `http` or `https` is refused and never
/// queued for a choice (when routing is neither paused nor asking).
pub proof fn law_unsupported_scheme_is_not_queued(
    r: RouteStart,
    fin: DesktopService,
    old: DesktopService,
    url: WebUrl,
    source: Seq<char>,
    now: u64,
    runtime: RuntimeSnapshot,
)
    requires
        !old.paused,
        !old.ask_next,
        !is_web_scheme(url.scheme_text()),
        route_started(
            r,
            fin,
            old,
            url,
            source,
            now,
            decision_for(url, source, old.ask_next, old.paused, old.config, runtime),
        ),
    ensures
        r == RouteStart::Settled(RouteDisposition::Failed),
        fin.pending_view() == old.pending_view(),
{
}

/// A link that is asked about waits for a choice as the newest pending
/// link, under its event identifier and its domain only.
pub proof fn law_asked_link_is_queued(
    r: RouteStart,
    fin: DesktopService,
    old: DesktopService,
    url: WebUrl,
    source: Seq<char>,
    now: u64,
    d: crate::routing::DecisionView,
)
    requires
        d.final_action == FinalAction::Ask,
        route_started(r, fin, old, url, source, now, d),
    ensures
        r == RouteStart::Settled(RouteDisposition::Ask),
        fin.pending_view().len() == old.pending_view().len() + 1,
        fin.pending_view().last().id == old.next_id(),
        fin.pending_view().last().domain == recorded_domain(url.host_text()),
        fin.pending_view().drop_last() == old.pending_view(),
{
    assert(fin.pending_view().drop_last() =~= old.pending_view());
}

/// Every session the router reports can take links: it has a window and is
/// not incognito; and a profile carries an activation only where it is the
/// one recorded for its browser.
pub proof fn law_reported_sessions_are_available(
    rt: RuntimeSnapshot,
    available: Seq<(Seq<char>, Seq<char>)>,
    recent: Seq<(Seq<char>, Seq<char>, u64)>,
)
    requires
        is_snapshot_of(rt, available, recent),
    ensures
        forall|i: int| 0 <= i < rt.sessions@.len() ==> (#[trigger] rt.sessions@[i]).available(),
        forall|i: int|
            0 <= i < rt.sessions@.len() && (#[trigger] rt.sessions@[i]).last_user_activation is Some
                ==> crate::desktop::recent_of(recent, rt.sessions@[i].browser_id@) == Some(
                (rt.sessions@[i].profile_id@, rt.sessions@[i].last_user_activation->0),
            ),
{
    assert forall|i: int| 0 <= i < rt.sessions@.len() implies (
    #[trigger] rt.sessions@[i]).available() by {
        assert(rt.sessions@[i].windows@.len() == 1);
    }
}

/// The log keeps a link's domain and nothing else of it: two links with
/// the same host are recorded alike, whatever their paths, queries and
/// fragments.
pub proof fn law_log_keeps_only_the_domain(
    a: WebUrl,
    b: WebUrl,
    timestamp_ms: u64,
    source: Seq<char>,
    outcome: Seq<char>,
    rule_id: Option<Seq<char>>,
    identity_id: Option<Seq<char>>,
    error: Option<Seq<char>>,
)
    requires
        a.host_text() == b.host_text(),
    ensures
        route_event(timestamp_ms, source, a.host_text(), outcome, rule_id, identity_id, error)
            == route_event(timestamp_ms, source, b.host_text(), outcome, rule_id, identity_id, error),
{
}

/// Each supported browser among the running Windows processes is reported
/// once.
pub proof fn law_windows_running_browsers_distinct(names: Seq<Seq<char>>, n: int)
    ensures
        crate::platform_windows::running_browsers_upto(names, n).no_duplicates(),
    decreases n,
{
    if n > 0 {
        law_windows_running_browsers_distinct(names, n - 1);
    }
}

/// Each supported browser among the running Linux processes is reported
/// once.
pub proof fn law_linux_running_browsers_distinct(names: Seq<Seq<char>>, n: int)
    ensures
        crate::platform_linux::running_upto(names, n).no_duplicates(),
    decreases n,
{
    if n > 0 {
        law_linux_running_browsers_distinct(names, n - 1);
    }
}

/// Each profile with an open window that `Local State` lists is reported
/// once, and none is blank.
pub proof fn law_active_profiles_distinct(values: Seq<Option<Seq<char>>>, n: int)
    ensures
        crate::local_state::distinct_named_upto(values, n).no_duplicates(),
        forall|i: int|
            0 <= i < crate::local_state::distinct_named_upto(values, n).len() ==> !crate::text::is_blank_spec(
                #[trigger] crate::local_state::distinct_named_upto(values, n)[i],
            ),
    decreases n,
{
    if n > 0 {
        law_active_profiles_distinct(values, n - 1);
    }
}


/// A configuration whose rules all validate (as every configuration that
/// `prepare_config` or `check_config` accepts) can route every link: the
/// rule that routing uses always names what its target needs.
pub proof fn law_valid_config_is_routable(
    url: WebUrl,
    source: Seq<char>,
    ask_next: bool,
    paused: bool,
    config: crate::config::RouterConfig,
)
    requires
        forall|k: int| 0 <= k < config.rules@.len() ==> (#[trigger] config.rules@[k]).problem_spec() is None,
    ensures
        crate::engine::routable_for(url, source, ask_next, paused, config),
{
    if let Some(host) = crate::engine::host_spec(url) {
        crate::laws::law_chosen_rule_has_precedence(config.rules@, source, host);
        if let Some(i) = crate::engine::best_rule(config.rules@, source, host) {
            crate::config::lemma_valid_rule_target_complete(config.rules@[i]);
        }
    }
}

} // verus!
