//! The inputs and the outcome of a routing decision.

use vstd::prelude::*;

use crate::browser::{BrowserSession, IdentityRef};
use crate::config::UnavailableAction;
use crate::ids::{AppId, BrowserId, ProfileId, RuleId};
use crate::web_url::WebUrl;

verus! {

/// An incoming link and the state of the router when it arrived.
#[derive(Debug)]
pub struct RouteContext {
    pub url: WebUrl,
    pub source_app: AppId,
    pub event_id: String,
    pub ask_next: bool,
    pub paused: bool,
}

/// The browser sessions observed when the link arrived, and the identity
/// that the link came from when it came from a browser.
#[derive(Debug)]
pub struct RuntimeSnapshot {
    pub sessions: Vec<BrowserSession>,
    pub source_identity: Option<IdentityRef>,
}

/// Why a candidate was proposed.
#[derive(Debug, Clone, Copy, PartialEq, Eq, Structural)]
pub enum CandidateKind {
    SpecifiedProfile,
    BrowserDefault,
    ActiveInBrowser,
    GloballyActive,
    NewTargetWindow,
}

/// A browser (and profile) to open the link in.
#[derive(Debug)]
pub struct OpenCandidate {
    pub browser_id: BrowserId,
    pub profile_id: Option<ProfileId>,
    pub kind: CandidateKind,
}

/// A candidate as plain values.
#[verifier::ext_equal]
pub struct CandidateView {
    pub browser_id: Seq<char>,
    pub profile_id: Option<Seq<char>>,
    pub kind: CandidateKind,
}

/// The text of an optional profile identifier.
pub open spec fn opt_profile(p: Option<ProfileId>) -> Option<Seq<char>> {
    match p {
        Some(id) => Some(id@),
        None => None,
    }
}

/// The text of an optional rule identifier.
pub open spec fn opt_rule(r: Option<RuleId>) -> Option<Seq<char>> {
    match r {
        Some(id) => Some(id@),
        None => None,
    }
}

impl View for OpenCandidate {
    type V = CandidateView;

    open spec fn view(&self) -> CandidateView {
        CandidateView {
            browser_id: self.browser_id@,
            profile_id: opt_profile(self.profile_id),
            kind: self.kind,
        }
    }
}

/// What the router finally does with the link.
#[derive(Debug, Clone, Copy, PartialEq, Eq, Structural)]
pub enum FinalAction {
    Open,
    Ask,
    Fail,
}

/// Why the router decided as it did.
#[derive(Debug, Clone, PartialEq, Eq)]
pub enum DecisionReason {
    MatchedRule(RuleId),
    BuiltInSameBrowser,
    NoMatchingRule,
    UnsupportedScheme,
    InvalidUrl,
    Paused,
    AskNext,
}

/// A decision reason as plain values.
pub enum ReasonView {
    MatchedRule(Seq<char>),
    BuiltInSameBrowser,
    NoMatchingRule,
    UnsupportedScheme,
    InvalidUrl,
    Paused,
    AskNext,
}

impl View for DecisionReason {
    type V = ReasonView;

    open spec fn view(&self) -> ReasonView {
        match self {
            DecisionReason::MatchedRule(id) => ReasonView::MatchedRule(id@),
            DecisionReason::BuiltInSameBrowser => ReasonView::BuiltInSameBrowser,
            DecisionReason::NoMatchingRule => ReasonView::NoMatchingRule,
            DecisionReason::UnsupportedScheme => ReasonView::UnsupportedScheme,
            DecisionReason::InvalidUrl => ReasonView::InvalidUrl,
            DecisionReason::Paused => ReasonView::Paused,
            DecisionReason::AskNext => ReasonView::AskNext,
        }
    }
}

/// The routing decision for a link.
#[derive(Debug)]
pub struct RouteDecision {
    pub matched_rule_id: Option<RuleId>,
    pub candidates: Vec<OpenCandidate>,
    pub unavailable_action: UnavailableAction,
    pub final_action: FinalAction,
    pub reason: DecisionReason,
}

/// A routing decision as plain values.
#[verifier::ext_equal]
pub struct DecisionView {
    pub matched_rule_id: Option<Seq<char>>,
    pub candidates: Seq<CandidateView>,
    pub unavailable_action: UnavailableAction,
    pub final_action: FinalAction,
    pub reason: ReasonView,
}

impl View for RouteDecision {
    type V = DecisionView;

    open spec fn view(&self) -> DecisionView {
        DecisionView {
            matched_rule_id: opt_rule(self.matched_rule_id),
            candidates: self.candidates@.map_values(|c: OpenCandidate| c@),
            unavailable_action: self.unavailable_action,
            final_action: self.final_action,
            reason: self.reason@,
        }
    }
}

/// The decision to ask the user, for the given reason.
pub open spec fn ask_view(reason: ReasonView) -> DecisionView {
    DecisionView {
        matched_rule_id: None,
        candidates: Seq::empty(),
        unavailable_action: UnavailableAction::Ask,
        final_action: FinalAction::Ask,
        reason,
    }
}

/// The decision to refuse the link, for the given reason.
pub open spec fn fail_view(reason: ReasonView) -> DecisionView {
    DecisionView {
        matched_rule_id: None,
        candidates: Seq::empty(),
        unavailable_action: UnavailableAction::Fail,
        final_action: FinalAction::Fail,
        reason,
    }
}

impl RouteDecision {
    /// The first candidate, where there is one.
    pub fn primary(&self) -> (r: Option<&OpenCandidate>)
        ensures
            self.candidates@.len() == 0 ==> r is None,
            self.candidates@.len() > 0 ==> r == Some(&self.candidates@[0]),
    {
        if self.candidates.len() == 0 {
            None
        } else {
            Some(&self.candidates[0])
        }
    }

    /// Asks the user, for the given reason, with no rule and no candidate.
    pub fn ask(reason: DecisionReason) -> (r: Self)
        ensures
            r@ == ask_view(reason@),
    {
        let r = RouteDecision {
            matched_rule_id: None,
            candidates: Vec::new(),
            unavailable_action: UnavailableAction::Ask,
            final_action: FinalAction::Ask,
            reason,
        };
        assert(r@.candidates =~= Seq::<CandidateView>::empty());
        r
    }

    /// Refuses the link, for the given reason, with no rule and no candidate.
    pub fn fail(reason: DecisionReason) -> (r: Self)
        ensures
            r@ == fail_view(reason@),
    {
        let r = RouteDecision {
            matched_rule_id: None,
            candidates: Vec::new(),
            unavailable_action: UnavailableAction::Fail,
            final_action: FinalAction::Fail,
            reason,
        };
        assert(r@.candidates =~= Seq::<CandidateView>::empty());
        r
    }
}

} // verus!
