//! The decisions behind the desktop shell's commands: which links on the
//! command line are routed, which application a link came from, when the
//! settings window hides or comes back, and what the settings and selector
//! windows show.

use vstd::prelude::*;

use crate::browser::OpenDisposition;
use crate::config::RouterConfig;
use crate::desktop::{BrowserInstallation, PendingRoute};
use crate::diagnostics::DiagnosticEvent;
use crate::engine::is_web_scheme;
use crate::platform_macos::SystemIntegrationStatus;
use crate::preferences::AppLocale;
use crate::web_url::{url_parse, WebUrl};

verus! {

/// The bundle identifier of System Settings.
pub const SYSTEM_SETTINGS_BUNDLE_ID: &'static str = "com.apple.systempreferences";

/// Watches the frontmost application after System Settings was opened, to
/// bring the router's settings back once the user leaves System Settings.
#[derive(Debug, Clone, Copy, PartialEq, Eq, Structural)]
pub struct FocusReturnTracker {
    pub system_settings_seen: bool,
}

impl Default for FocusReturnTracker {
    fn default() -> (r: Self)
        ensures
            !r.system_settings_seen,
    {
        FocusReturnTracker { system_settings_seen: false }
    }
}

/// Whether the frontmost application is System Settings.
pub open spec fn is_system_settings(frontmost: Option<Seq<char>>) -> bool {
    frontmost == Some("com.apple.systempreferences"@)
}

/// Whether System Settings was seen once `frontmost` has been observed.
pub open spec fn seen_after(seen: bool, frontmost: Option<Seq<char>>) -> bool {
    seen || is_system_settings(frontmost)
}

/// Whether the settings come back when `frontmost` is observed: System
/// Settings was seen before and is not in front now.
pub open spec fn focus_returns(seen: bool, frontmost: Option<Seq<char>>) -> bool {
    seen && !is_system_settings(frontmost)
}

/// Whether System Settings was seen once the applications `observed` have
/// been observed in order.
pub open spec fn seen_after_all(seen: bool, observed: Seq<Option<Seq<char>>>) -> bool
    decreases observed.len(),
{
    if observed.len() == 0 {
        seen
    } else {
        seen_after(seen_after_all(seen, observed.drop_last()), observed.last())
    }
}

proof fn lemma_seen_after_all(observed: Seq<Option<Seq<char>>>)
    ensures
        seen_after_all(false, observed) == exists|i: int|
            0 <= i < observed.len() && is_system_settings(#[trigger] observed[i]),
    decreases observed.len(),
{
    if observed.len() > 0 {
        let prev = observed.drop_last();
        lemma_seen_after_all(prev);
        if seen_after_all(false, observed) {
            if is_system_settings(observed.last()) {
                assert(is_system_settings(observed[observed.len() - 1]));
            } else {
                let i = choose|i: int| 0 <= i < prev.len() && is_system_settings(#[trigger] prev[i]);
                assert(observed[i] == prev[i]);
            }
        } else {
            assert forall|i: int| 0 <= i < observed.len() implies !is_system_settings(
                #[trigger] observed[i],
            ) by {
                if i < prev.len() {
                    assert(observed[i] == prev[i]);
                }
            }
        }
    }
}

/// Observing the frontmost application again and again from a fresh
/// tracker, the settings come back at an observation exactly when System
/// Settings was in front at some earlier observation and is not in front
/// now.
pub proof fn law_focus_returns_after_leaving_settings(observed: Seq<Option<Seq<char>>>)
    requires
        observed.len() >= 1,
    ensures
        focus_returns(seen_after_all(false, observed.drop_last()), observed.last()) == (
        !is_system_settings(observed.last()) && exists|i: int|
            0 <= i < observed.len() - 1 && is_system_settings(#[trigger] observed[i])),
{
    let prev = observed.drop_last();
    lemma_seen_after_all(prev);
    if exists|i: int| 0 <= i < observed.len() - 1 && is_system_settings(#[trigger] observed[i]) {
        let i = choose|i: int| 0 <= i < observed.len() - 1 && is_system_settings(#[trigger] observed[i]);
        assert(prev[i] == observed[i]);
    }
    if exists|i: int| 0 <= i < prev.len() && is_system_settings(#[trigger] prev[i]) {
        let i = choose|i: int| 0 <= i < prev.len() && is_system_settings(#[trigger] prev[i]);
        assert(prev[i] == observed[i]);
    }
}

impl FocusReturnTracker {
    /// Notes the frontmost application; tells whether the settings should
    /// come back: System Settings was seen and is no longer frontmost.
    pub fn observe(&mut self, frontmost_bundle_id: Option<&str>) -> (r: bool)
        ensures
            match frontmost_bundle_id {
                Some(b) if b@ == "com.apple.systempreferences"@ => !r
                    && final(self).system_settings_seen,
                _ => r == old(self).system_settings_seen && final(self).system_settings_seen == old(self).system_settings_seen,
            },
            r == focus_returns(old(self).system_settings_seen, crate::diagnostics::opt_str(frontmost_bundle_id)),
            final(self).system_settings_seen == seen_after(
                old(self).system_settings_seen,
                crate::diagnostics::opt_str(frontmost_bundle_id),
            ),
    {
        let is_settings = match frontmost_bundle_id {
            Some(b) => crate::text::text_eq(b, "com.apple.systempreferences"),
            None => false,
        };
        if is_settings {
            self.system_settings_seen = true;
            false
        } else {
            self.system_settings_seen
        }
    }
}

/// How a profile is opened to test it: in an existing window the browser
/// manages.
pub fn test_open_disposition() -> (r: OpenDisposition)
    ensures
        r == OpenDisposition::ExistingWindow,
{
    OpenDisposition::ExistingWindow
}

/// The application a link is attributed to: the frontmost one, unless
/// there is none, it is unnamed, or it is the router itself; then
/// `unknown`.
pub open spec fn source_application_spec(candidate: Option<Seq<char>>, own: Seq<char>) -> Seq<char> {
    match candidate {
        Some(c) => if c.len() > 0 && c != own {
            c
        } else {
            "unknown"@
        },
        None => "unknown"@,
    }
}

/// The application a link is attributed to.
pub fn source_application_or_unknown(candidate: Option<String>, own_bundle_id: &str) -> (r: String)
    ensures
        r@ == source_application_spec(
            match candidate {
                Some(c) => Some(c@),
                None => None,
            },
            own_bundle_id@,
        ),
{
    match candidate {
        Some(c) => if c.as_str().unicode_len() > 0 && !crate::text::text_eq(c.as_str(), own_bundle_id) {
            c
        } else {
            String::from_str("unknown")
        },
        None => String::from_str("unknown"),
    }
}

/// Whether closing a window hides the settings: only the settings window,
/// and only while it has the focus.
pub fn should_hide_settings(label: &str, focused: bool) -> (r: bool)
    ensures
        r == (label@ == "settings"@ && focused),
{
    crate::text::text_eq(label, "settings") && focused
}

/// The command-line arguments that are web links, parsed, in order;
/// anything else is passed over.
pub open spec fn url_args_upto(args: Seq<Seq<char>>, n: int) -> Seq<(Seq<char>, Seq<char>, Option<Seq<char>>)>
    decreases n,
{
    if n <= 0 {
        Seq::empty()
    } else {
        let prev = url_args_upto(args, n - 1);
        match url_parse(args[n - 1]) {
            Some(parts) => if is_exact_web_scheme(parts.1) {
                prev.push(parts)
            } else {
                prev
            },
            None => prev,
        }
    }
}

/// Whether a parsed scheme is `http` or `https` (parsed schemes are lower
/// case).
pub open spec fn is_exact_web_scheme(scheme: Seq<char>) -> bool {
    scheme == "http"@ || scheme == "https"@
}

/// The links among the command-line arguments: those that parse as
/// absolute `http` or `https` URLs, in order.
pub fn url_args(args: &Vec<String>) -> (r: Vec<WebUrl>)
    ensures
        r@.map_values(|u: WebUrl| u.parts()) == url_args_upto(
            crate::text::string_texts(args@),
            args@.len() as int,
        ),
{
    let ghost texts = crate::text::string_texts(args@);
    let mut out: Vec<WebUrl> = Vec::new();
    let mut i: usize = 0;
    assert(out@.map_values(|u: WebUrl| u.parts()) =~= Seq::<
        (Seq<char>, Seq<char>, Option<Seq<char>>),
    >::empty());
    while i < args.len()
        invariant
            texts == crate::text::string_texts(args@),
            i <= args@.len(),
            out@.map_values(|u: WebUrl| u.parts()) == url_args_upto(texts, i as int),
        decreases args.len() - i,
    {
        assert(texts[i as int] == args@[i as int]@);
        match WebUrl::parse(args[i].as_str()) {
            Some(u) => {
                let scheme = u.scheme();
                if crate::text::text_eq(scheme, "http") || crate::text::text_eq(scheme, "https") {
                    let ghost before = out@.map_values(|u: WebUrl| u.parts());
                    let ghost p = u.parts();
                    out.push(u);
                    assert(out@.map_values(|u: WebUrl| u.parts()) =~= before.push(p));
                }
            },
            None => {},
        }
        i = i + 1;
    }
    out
}

/// What the settings window shows.
#[derive(Debug)]
pub struct AppSnapshot {
    pub locale: AppLocale,
    pub config: RouterConfig,
    pub config_error: Option<String>,
    pub browsers: Vec<BrowserInstallation>,
    pub paused: bool,
    pub ask_next: bool,
    pub diagnostics: Vec<DiagnosticEvent>,
    pub diagnostics_limit: usize,
    pub diagnostics_error: Option<String>,
    pub system: SystemIntegrationStatus,
}

/// What the profile selector shows.
#[derive(Debug)]
pub struct SelectorState {
    pub locale: AppLocale,
    pub pending: Vec<PendingRoute>,
    pub browsers: Vec<BrowserInstallation>,
}

} // verus!
