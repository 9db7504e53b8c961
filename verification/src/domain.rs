//! Domain names in their normalized ASCII form, and the exact or wildcard
//! patterns that routing rules match them against.

use vstd::prelude::*;

use crate::text::{
    ascii_lower_seq, has_prefix, has_suffix, is_blank_spec, trim_end_dots, trim_spec,
};

verus! {

/// Why a text is not a domain name.
#[derive(Debug, Clone, Copy, PartialEq, Eq, Structural)]
pub enum DomainError {
    /// Nothing is left once white space and trailing dots are removed.
    Empty,
    /// The IDNA conversion to ASCII refused the name.
    Invalid,
}

impl DomainError {
    /// The error's message.
    pub fn message(&self) -> (r: String)
        ensures
            r@ == self.message_spec(),
    {
        match self {
            DomainError::Empty => String::from_str("domain is empty"),
            DomainError::Invalid => String::from_str("domain is not a valid IDNA hostname"),
        }
    }

    /// The error's message as text.
    pub open spec fn message_spec(&self) -> Seq<char> {
        match self {
            DomainError::Empty => "domain is empty"@,
            DomainError::Invalid => "domain is not a valid IDNA hostname"@,
        }
    }
}

/// What `idna::domain_to_ascii` returns for a name: the ASCII form, or
/// nothing where the conversion fails.
pub uninterp spec fn idna_domain_to_ascii(domain: Seq<char>) -> Option<Seq<char>>;

#[verifier::external_type_specification]
#[verifier::external_body]
pub struct ExIdnaErrors(idna::Errors);

/// Calls `idna::domain_to_ascii`, the WHATWG "domain to ASCII" algorithm.
/// Trusted: its result is the named `idna_domain_to_ascii` of the input;
/// nothing more is claimed of it.
#[verifier::external_body]
fn domain_to_ascii(domain: &str) -> (r: Result<String, idna::Errors>)
    ensures
        match r {
            Ok(ascii) => idna_domain_to_ascii(domain@) == Some(ascii@),
            Err(_) => idna_domain_to_ascii(domain@) is None,
        },
{
    idna::domain_to_ascii(domain)
}

/// The normalized form of a text as a domain name: white space and
/// trailing dots removed, converted to ASCII by IDNA, then lower-cased.
pub open spec fn normalize_spec(input: Seq<char>) -> Result<Seq<char>, DomainError> {
    let trimmed = trim_end_dots(trim_spec(input));
    if trimmed.len() == 0 {
        Err(DomainError::Empty)
    } else {
        match idna_domain_to_ascii(trimmed) {
            Some(ascii) => Ok(ascii_lower_seq(ascii)),
            None => Err(DomainError::Invalid),
        }
    }
}

/// A domain name in normalized form.
#[derive(Debug)]
pub struct Domain(String);

impl View for Domain {
    type V = Seq<char>;

    closed spec fn view(&self) -> Seq<char> {
        self.0@
    }
}

impl Clone for Domain {
    fn clone(&self) -> (r: Self)
        ensures
            r == *self,
    {
        Domain(self.0.clone())
    }
}

impl PartialEq for Domain {
    fn eq(&self, other: &Self) -> (r: bool) {
        self.0 == other.0
    }
}

impl vstd::std_specs::cmp::PartialEqSpecImpl for Domain {
    open spec fn obeys_eq_spec() -> bool {
        true
    }

    open spec fn eq_spec(&self, other: &Self) -> bool {
        self@ == other@
    }
}

impl Eq for Domain {}

impl Domain {
    /// Normalizes `input` as a domain name: trims white space and trailing
    /// dots, converts it to ASCII with IDNA, and lower-cases the result.
    pub fn normalize(input: &str) -> (r: Result<Self, DomainError>)
        ensures
            match normalize_spec(input@) {
                Ok(d) => r matches Ok(dom) && dom@ == d,
                Err(e) => r == Err::<Domain, DomainError>(e),
            },
    {
        let trimmed = crate::text::trim_trailing_dots(crate::text::trim(input));
        if trimmed.unicode_len() == 0 {
            return Err(DomainError::Empty);
        }
        let ascii = match domain_to_ascii(trimmed) {
            Ok(ascii) => Some(ascii),
            Err(_) => None,
        };
        match ascii {
            Some(a) => Domain::from_ascii(Some(a.as_str())),
            None => Domain::from_ascii(None),
        }
    }

    /// Completes normalization from the IDNA result: lower-cases an ASCII
    /// form, and reports a refused conversion as `Invalid`.
    pub fn from_ascii(ascii: Option<&str>) -> (r: Result<Self, DomainError>)
        ensures
            match ascii {
                Some(a) => r matches Ok(dom) && dom@ == ascii_lower_seq(a@),
                None => r == Err::<Domain, DomainError>(DomainError::Invalid),
            },
    {
        match ascii {
            Some(a) => Ok(Domain(crate::text::to_ascii_lower(a))),
            None => Err(DomainError::Invalid),
        }
    }

    /// The domain's text.
    pub fn as_str(&self) -> (r: &str)
        ensures
            r@ == self@,
    {
        self.0.as_str()
    }

    /// Gives the domain's text back.
    pub fn into_inner(self) -> (r: String)
        ensures
            r@ == self@,
    {
        self.0
    }

    /// The domain as display text: the domain itself.
    pub fn to_string(&self) -> (r: String)
        ensures
            r@ == self@,
    {
        self.0.clone()
    }
}

/// A pattern for domains: one exact domain, or every proper subdomain of a
/// domain (written `*.example.com`).
#[derive(Debug)]
pub enum DomainPattern {
    Exact(Domain),
    Wildcard(Domain),
}

impl Clone for DomainPattern {
    fn clone(&self) -> (r: Self)
        ensures
            r == *self,
    {
        match self {
            DomainPattern::Exact(d) => DomainPattern::Exact(d.clone()),
            DomainPattern::Wildcard(d) => DomainPattern::Wildcard(d.clone()),
        }
    }
}

impl PartialEq for DomainPattern {
    fn eq(&self, other: &Self) -> (r: bool) {
        match (self, other) {
            (DomainPattern::Exact(a), DomainPattern::Exact(b)) => a == b,
            (DomainPattern::Wildcard(a), DomainPattern::Wildcard(b)) => a == b,
            _ => false,
        }
    }
}

impl vstd::std_specs::cmp::PartialEqSpecImpl for DomainPattern {
    open spec fn obeys_eq_spec() -> bool {
        true
    }

    open spec fn eq_spec(&self, other: &Self) -> bool {
        match (self, other) {
            (DomainPattern::Exact(a), DomainPattern::Exact(b)) => a@ == b@,
            (DomainPattern::Wildcard(a), DomainPattern::Wildcard(b)) => a@ == b@,
            _ => false,
        }
    }
}

impl Eq for DomainPattern {}

/// The text that marks a wildcard pattern.
pub open spec fn wildcard_prefix() -> Seq<char> {
    seq!['*', '.']
}

impl DomainPattern {
    /// The pattern that `input` denotes: a wildcard where it starts with
    /// `*.` (the rest normalized), an exact domain otherwise.
    pub open spec fn parse_spec(input: Seq<char>) -> Result<(bool, Seq<char>), DomainError> {
        if has_prefix(input, wildcard_prefix()) {
            match normalize_spec(input.skip(2)) {
                Ok(d) => Ok((true, d)),
                Err(e) => Err(e),
            }
        } else {
            match normalize_spec(input) {
                Ok(d) => Ok((false, d)),
                Err(e) => Err(e),
            }
        }
    }

    /// Whether this is a wildcard pattern.
    pub open spec fn is_wildcard(&self) -> bool {
        self is Wildcard
    }

    /// The pattern's domain.
    pub open spec fn domain(&self) -> Seq<char> {
        match self {
            DomainPattern::Exact(d) => d@,
            DomainPattern::Wildcard(d) => d@,
        }
    }

    /// Whether the pattern matches `host`: the normalized host equals an
    /// exact pattern's domain, or ends with `.` and a wildcard's domain.
    pub open spec fn matches_spec(&self, host: Seq<char>) -> bool {
        match normalize_spec(host) {
            Ok(h) => match self {
                DomainPattern::Exact(d) => h == d@,
                DomainPattern::Wildcard(d) => has_suffix(h, seq!['.'] + d@),
            },
            Err(_) => false,
        }
    }

    /// Parses a pattern; `*.` in front makes it a wildcard.
    pub fn parse(input: &str) -> (r: Result<Self, DomainError>)
        ensures
            match Self::parse_spec(input@) {
                Ok((wild, d)) => r matches Ok(p) && p.is_wildcard() == wild && p.domain() == d,
                Err(e) => r == Err::<DomainPattern, DomainError>(e),
            },
    {
        if crate::text::starts_with(input, "*.") {
            proof {
                reveal_strlit("*.");
                assert("*."@ =~= wildcard_prefix());
            }
            let n = input.unicode_len();
            let rest = input.substring_char(2, n);
            assert(rest@ =~= input@.skip(2));
            match Domain::normalize(rest) {
                Ok(d) => Ok(DomainPattern::Wildcard(d)),
                Err(e) => Err(e),
            }
        } else {
            proof {
                reveal_strlit("*.");
                assert("*."@ =~= wildcard_prefix());
            }
            match Domain::normalize(input) {
                Ok(d) => Ok(DomainPattern::Exact(d)),
                Err(e) => Err(e),
            }
        }
    }

    /// Whether the pattern matches `host`, which is normalized first; a
    /// host that does not normalize matches nothing.
    pub fn matches(&self, host: &str) -> (r: bool)
        ensures
            r == self.matches_spec(host@),
    {
        let normalized = match Domain::normalize(host) {
            Ok(d) => d,
            Err(_) => return false,
        };
        match self {
            DomainPattern::Exact(pattern) => *pattern == normalized,
            DomainPattern::Wildcard(pattern) => {
                let mut suffix = String::from_str(".");
                suffix.append(pattern.as_str());
                proof {
                    reveal_strlit(".");
                    assert(suffix@ =~= seq!['.'] + pattern@);
                }
                crate::text::ends_with(normalized.as_str(), suffix.as_str())
            },
        }
    }

    /// The pattern as written: the domain, with `*.` in front for a wildcard.
    pub fn as_str(&self) -> (r: String)
        ensures
            r@ == (if self.is_wildcard() {
                wildcard_prefix() + self.domain()
            } else {
                self.domain()
            }),
    {
        match self {
            DomainPattern::Exact(d) => d.to_string(),
            DomainPattern::Wildcard(d) => {
                let mut s = String::from_str("*.");
                s.append(d.as_str());
                proof {
                    reveal_strlit("*.");
                    assert(s@ =~= wildcard_prefix() + d@);
                }
                s
            },
        }
    }
}

/// Parsing a pattern's own text (`as_str`) gives the pattern back, where
/// its domain is as parsing leaves one: not empty, with no white space or
/// trailing dot at its ends, converted by IDNA to itself (up to case), and,
/// for an exact pattern, not itself starting with `*.`. Whether IDNA
/// converts every name it produced to itself is for the idna crate to say;
/// it is assumed here only through the last-but-one condition.
pub proof fn law_pattern_text_parses_back(p: DomainPattern)
    requires
        p.domain().len() > 0,
        trim_end_dots(trim_spec(p.domain())) == p.domain(),
        idna_domain_to_ascii(p.domain()) matches Some(a) && ascii_lower_seq(a) == p.domain(),
        !p.is_wildcard() ==> !has_prefix(p.domain(), wildcard_prefix()),
    ensures
        DomainPattern::parse_spec(
            if p.is_wildcard() {
                wildcard_prefix() + p.domain()
            } else {
                p.domain()
            },
        ) == Ok::<(bool, Seq<char>), DomainError>((p.is_wildcard(), p.domain())),
{
    if p.is_wildcard() {
        let t = wildcard_prefix() + p.domain();
        assert(t.subrange(0, 2) =~= wildcard_prefix());
        assert(has_prefix(t, wildcard_prefix()));
        assert(t.skip(2) =~= p.domain());
    }
}

} // verus!
