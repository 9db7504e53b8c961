//! Routing configuration: rules, what they match, where they send a link,
//! and the checks that keep a rule coherent.

use vstd::prelude::*;

use crate::domain::DomainPattern;
use crate::ids::{AppId, BrowserId, ProfileId, RuleId};
use crate::text::is_blank_spec;

verus! {

/// The configuration schema this library reads and writes.
pub const SCHEMA_VERSION: u32 = 1;

/// Where a rule sends a link.
#[derive(Debug, Clone, Copy, PartialEq, Eq, Structural)]
pub enum TargetMode {
    SpecifiedProfile,
    BrowserDefault,
    ActiveInBrowser,
    GloballyActive,
    Ask,
}

/// Whether a rule may give up its specified profile for another identity.
#[derive(Debug, Clone, Copy, PartialEq, Eq, Structural)]
pub enum Enforcement {
    Prefer,
    Force,
}

impl Default for Enforcement {
    fn default() -> (r: Self)
        ensures
            r == Enforcement::Prefer,
    {
        Enforcement::Prefer
    }
}

/// Which other identities a preferring rule may fall back to.
#[derive(Debug, Clone, Copy, PartialEq, Eq, Structural)]
pub enum FallbackScope {
    /// No fallback (written `none` in configuration files).
    NoFallback,
    SameBrowser,
    AnyActiveBrowser,
}

impl Default for FallbackScope {
    fn default() -> (r: Self)
        ensures
            r == FallbackScope::NoFallback,
    {
        FallbackScope::NoFallback
    }
}

/// What happens when a rule's target is not available.
#[derive(Debug, Clone, Copy, PartialEq, Eq, Structural)]
pub enum UnavailableAction {
    Ask,
    OpenTargetProfile,
    CreateTargetWindow,
    Fail,
}

impl Default for UnavailableAction {
    fn default() -> (r: Self)
        ensures
            r == UnavailableAction::Ask,
    {
        UnavailableAction::Ask
    }
}

/// One value, or a list of them.
#[derive(Debug)]
pub enum OneOrMany<T> {
    One(T),
    Many(Vec<T>),
}

impl<T> OneOrMany<T> {
    /// The values, in order.
    pub open spec fn items(&self) -> Seq<T> {
        match self {
            OneOrMany::One(v) => seq![*v],
            OneOrMany::Many(vs) => vs@,
        }
    }

    /// The values, in order.
    pub fn iter(&self) -> (r: Vec<&T>)
        ensures
            r@.len() == self.items().len(),
            forall|i: int| 0 <= i < r@.len() ==> *r@[i] == self.items()[i],
    {
        match self {
            OneOrMany::One(v) => {
                let mut out: Vec<&T> = Vec::new();
                out.push(v);
                out
            },
            OneOrMany::Many(vs) => {
                let mut out: Vec<&T> = Vec::new();
                let mut i: usize = 0;
                while i < vs.len()
                    invariant
                        i <= vs@.len(),
                        out@.len() == i,
                        forall|j: int| 0 <= j < i ==> *out@[j] == vs@[j],
                    decreases vs.len() - i,
                {
                    out.push(&vs[i]);
                    i = i + 1;
                }
                out
            },
        }
    }

    /// Whether there is no value: only an empty list has none.
    pub fn is_empty(&self) -> (r: bool)
        ensures
            r == (self.items().len() == 0),
    {
        match self {
            OneOrMany::One(_) => false,
            OneOrMany::Many(vs) => vs.len() == 0,
        }
    }
}

impl<T> From<T> for OneOrMany<T> {
    fn from(value: T) -> (r: Self) {
        OneOrMany::One(value)
    }
}

impl<T> vstd::std_specs::convert::FromSpecImpl<T> for OneOrMany<T> {
    open spec fn obeys_from_spec() -> bool {
        true
    }

    open spec fn from_spec(v: T) -> Self {
        OneOrMany::One(v)
    }
}

/// What a rule matches: the source application and the link's domain.
/// An absent or empty list matches anything.
#[derive(Debug)]
pub struct RuleMatcher {
    pub source_app: Option<OneOrMany<AppId>>,
    pub domain: Option<OneOrMany<DomainPattern>>,
}

/// Where a rule sends a link.
#[derive(Debug)]
pub struct RuleTarget {
    pub mode: TargetMode,
    pub browser_id: Option<BrowserId>,
    pub profile_id: Option<ProfileId>,
}

/// A routing rule.
#[derive(Debug)]
pub struct RouteRule {
    pub id: RuleId,
    pub name: Option<String>,
    pub enabled: bool,
    pub order: u32,
    pub matcher: RuleMatcher,
    pub target: RuleTarget,
    pub enforcement: Enforcement,
    pub fallback_scope: FallbackScope,
    pub unavailable_action: UnavailableAction,
}

/// The whole routing configuration.
#[derive(Debug)]
pub struct RouterConfig {
    pub schema_version: u32,
    pub rules: Vec<RouteRule>,
}

/// The value a rule's `enabled` takes when the configuration omits it.
pub fn default_true() -> (r: bool)
    ensures
        r,
{
    true
}

/// The schema version a configuration has when it omits it.
pub fn default_schema_version() -> (r: u32)
    ensures
        r == SCHEMA_VERSION,
{
    SCHEMA_VERSION
}

impl Default for RouterConfig {
    fn default() -> (r: Self)
        ensures
            r.schema_version == SCHEMA_VERSION,
            r.rules@.len() == 0,
    {
        RouterConfig { schema_version: SCHEMA_VERSION, rules: Vec::new() }
    }
}

/// The kinds of incoherent rule.
#[derive(Debug, Clone, Copy, PartialEq, Eq, Structural)]
pub enum RuleProblem {
    BlankName,
    AskHasExtraTargeting,
    ForceCannotFallback,
    SpecifiedProfileRequiresIdentity,
    BrowserDefaultRequiresBrowser,
    ActiveInBrowserRequiresBrowser,
}

/// Why a rule is rejected; each names the rule.
#[derive(Debug, Clone, PartialEq, Eq)]
pub enum ConfigError {
    BlankName(String),
    AskHasExtraTargeting(String),
    ForceCannotFallback(String),
    SpecifiedProfileRequiresIdentity(String),
    BrowserDefaultRequiresBrowser(String),
    ActiveInBrowserRequiresBrowser(String),
}

impl ConfigError {
    /// The kind of problem.
    pub open spec fn problem(&self) -> RuleProblem {
        match self {
            ConfigError::BlankName(_) => RuleProblem::BlankName,
            ConfigError::AskHasExtraTargeting(_) => RuleProblem::AskHasExtraTargeting,
            ConfigError::ForceCannotFallback(_) => RuleProblem::ForceCannotFallback,
            ConfigError::SpecifiedProfileRequiresIdentity(_) => RuleProblem::SpecifiedProfileRequiresIdentity,
            ConfigError::BrowserDefaultRequiresBrowser(_) => RuleProblem::BrowserDefaultRequiresBrowser,
            ConfigError::ActiveInBrowserRequiresBrowser(_) => RuleProblem::ActiveInBrowserRequiresBrowser,
        }
    }

    /// The identifier of the rejected rule.
    pub open spec fn rule_id(&self) -> Seq<char> {
        match self {
            ConfigError::BlankName(id) => id@,
            ConfigError::AskHasExtraTargeting(id) => id@,
            ConfigError::ForceCannotFallback(id) => id@,
            ConfigError::SpecifiedProfileRequiresIdentity(id) => id@,
            ConfigError::BrowserDefaultRequiresBrowser(id) => id@,
            ConfigError::ActiveInBrowserRequiresBrowser(id) => id@,
        }
    }

    /// Builds the error of the given kind for the rule `id`.
    pub fn of(problem: RuleProblem, id: String) -> (r: Self)
        ensures
            r.problem() == problem,
            r.rule_id() == id@,
    {
        match problem {
            RuleProblem::BlankName => ConfigError::BlankName(id),
            RuleProblem::AskHasExtraTargeting => ConfigError::AskHasExtraTargeting(id),
            RuleProblem::ForceCannotFallback => ConfigError::ForceCannotFallback(id),
            RuleProblem::SpecifiedProfileRequiresIdentity => ConfigError::SpecifiedProfileRequiresIdentity(id),
            RuleProblem::BrowserDefaultRequiresBrowser => ConfigError::BrowserDefaultRequiresBrowser(id),
            RuleProblem::ActiveInBrowserRequiresBrowser => ConfigError::ActiveInBrowserRequiresBrowser(id),
        }
    }

    /// The error's message, naming the rule.
    pub fn message(&self) -> (r: String)
        ensures
            r@ == config_error_message(self.problem(), self.rule_id()),
    {
        let (id, tail) = match self {
            ConfigError::BlankName(id) => (id, ": name must not be blank"),
            ConfigError::AskHasExtraTargeting(id) => (id, ": Ask must not set enforcement, fallback_scope or unavailable_action"),
            ConfigError::ForceCannotFallback(id) => (id, ": Force cannot use a fallback to another identity"),
            ConfigError::SpecifiedProfileRequiresIdentity(id) => (id, ": SpecifiedProfile requires both browser_id and profile_id"),
            ConfigError::BrowserDefaultRequiresBrowser(id) => (id, ": BrowserDefault requires browser_id"),
            ConfigError::ActiveInBrowserRequiresBrowser(id) => (id, ": ActiveInBrowser requires browser_id"),
        };
        let mut s = String::from_str("rule ");
        s.append(id.as_str());
        s.append(tail);
        s
    }
}

/// The message for a rejected rule: `rule <id>: <explanation>`.
pub open spec fn config_error_message(problem: RuleProblem, id: Seq<char>) -> Seq<char> {
    "rule "@ + id + match problem {
        RuleProblem::BlankName => ": name must not be blank"@,
        RuleProblem::AskHasExtraTargeting => ": Ask must not set enforcement, fallback_scope or unavailable_action"@,
        RuleProblem::ForceCannotFallback => ": Force cannot use a fallback to another identity"@,
        RuleProblem::SpecifiedProfileRequiresIdentity => ": SpecifiedProfile requires both browser_id and profile_id"@,
        RuleProblem::BrowserDefaultRequiresBrowser => ": BrowserDefault requires browser_id"@,
        RuleProblem::ActiveInBrowserRequiresBrowser => ": ActiveInBrowser requires browser_id"@,
    }
}

impl RouteRule {
    /// Whether the rule names a browser and a profile where its target
    /// mode needs them.
    pub open spec fn target_complete(&self) -> bool {
        match self.target.mode {
            TargetMode::SpecifiedProfile => self.target.browser_id is Some
                && self.target.profile_id is Some,
            TargetMode::BrowserDefault => self.target.browser_id is Some,
            TargetMode::ActiveInBrowser => self.target.browser_id is Some,
            _ => true,
        }
    }

    /// The first problem that validation finds with the rule, checked in
    /// this order: a blank name, then what the target mode demands.
    pub open spec fn problem_spec(&self) -> Option<RuleProblem> {
        if self.name matches Some(n) && is_blank_spec(n@) {
            Some(RuleProblem::BlankName)
        } else {
            match self.target.mode {
                TargetMode::Ask => if self.enforcement != Enforcement::Prefer
                    || self.fallback_scope != FallbackScope::NoFallback
                    || self.unavailable_action != UnavailableAction::Ask {
                    Some(RuleProblem::AskHasExtraTargeting)
                } else {
                    None
                },
                TargetMode::SpecifiedProfile => if self.target.browser_id is None
                    || self.target.profile_id is None {
                    Some(RuleProblem::SpecifiedProfileRequiresIdentity)
                } else if self.enforcement == Enforcement::Force && self.fallback_scope
                    != FallbackScope::NoFallback {
                    Some(RuleProblem::ForceCannotFallback)
                } else {
                    None
                },
                TargetMode::BrowserDefault => if self.target.browser_id is None {
                    Some(RuleProblem::BrowserDefaultRequiresBrowser)
                } else {
                    None
                },
                TargetMode::ActiveInBrowser => if self.target.browser_id is None {
                    Some(RuleProblem::ActiveInBrowserRequiresBrowser)
                } else {
                    None
                },
                TargetMode::GloballyActive => None,
            }
        }
    }

    /// Checks that the rule is coherent: its name is not blank, an `Ask`
    /// rule carries no targeting policy, a forced profile has no fallback,
    /// and the target names the browser (and profile) its mode needs.
    pub fn validate(&self) -> (r: Result<(), ConfigError>)
        ensures
            match self.problem_spec() {
                None => r is Ok,
                Some(p) => r matches Err(e) && e.problem() == p && e.rule_id() == self.id@,
            },
    {
        let problem = self.find_problem();
        match problem {
            None => Ok(()),
            Some(p) => Err(ConfigError::of(p, self.id.to_string())),
        }
    }

    fn find_problem(&self) -> (r: Option<RuleProblem>)
        ensures
            r == self.problem_spec(),
    {
        let blank = match &self.name {
            Some(n) => crate::text::is_blank(n.as_str()),
            None => false,
        };
        if blank {
            return Some(RuleProblem::BlankName);
        }
        match self.target.mode {
            TargetMode::Ask => {
                if self.enforcement != Enforcement::Prefer || self.fallback_scope
                    != FallbackScope::NoFallback || self.unavailable_action != UnavailableAction::Ask {
                    return Some(RuleProblem::AskHasExtraTargeting);
                }
            },
            TargetMode::SpecifiedProfile => {
                if self.target.browser_id.is_none() || self.target.profile_id.is_none() {
                    return Some(RuleProblem::SpecifiedProfileRequiresIdentity);
                }
                if self.enforcement == Enforcement::Force && self.fallback_scope
                    != FallbackScope::NoFallback {
                    return Some(RuleProblem::ForceCannotFallback);
                }
            },
            TargetMode::BrowserDefault => {
                if self.target.browser_id.is_none() {
                    return Some(RuleProblem::BrowserDefaultRequiresBrowser);
                }
            },
            TargetMode::ActiveInBrowser => {
                if self.target.browser_id.is_none() {
                    return Some(RuleProblem::ActiveInBrowserRequiresBrowser);
                }
            },
            TargetMode::GloballyActive => {},
        }
        None
    }
}

/// A rule that validates has the identifiers its target mode needs.
pub proof fn lemma_valid_rule_target_complete(rule: RouteRule)
    requires
        rule.problem_spec() is None,
    ensures
        rule.target_complete(),
{
}

} // verus!
