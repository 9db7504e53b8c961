//! Parsed web addresses: the parts of a URL that routing reads.

use vstd::prelude::*;

verus! {

/// What `url::Url::parse` gives for a text, read back through the parsed
/// URL's `as_str`, `scheme` and `host_str`: its serialization, its scheme
/// and its host; nothing where the text is not an absolute URL.
pub uninterp spec fn url_parse(input: Seq<char>) -> Option<(Seq<char>, Seq<char>, Option<Seq<char>>)>;

#[verifier::external_type_specification]
#[verifier::external_body]
pub struct ExUrlParseError(url::ParseError);

/// An absolute URL, kept as its serialization, scheme and host.
#[derive(Debug)]
pub struct WebUrl {
    serialization: String,
    scheme: String,
    host: Option<String>,
}

/// The text that an optional string holds.
pub open spec fn opt_text(s: Option<String>) -> Option<Seq<char>> {
    match s {
        Some(t) => Some(t@),
        None => None,
    }
}

/// Calls `url::Url::parse` and reads the parsed URL's `as_str`, `scheme`
/// and `host_str`. Trusted: the parts are those that the named `url_parse`
/// gives for the input.
#[verifier::external_body]
fn parse_url(input: &str) -> (r: Result<WebUrl, url::ParseError>)
    ensures
        match r {
            Ok(u) => url_parse(input@) == Some(u.parts()),
            Err(_) => url_parse(input@) is None,
        },
{
    match url::Url::parse(input) {
        Ok(u) => Ok(
            WebUrl {
                serialization: u.as_str().to_string(),
                scheme: u.scheme().to_string(),
                host: u.host_str().map(|h| h.to_string()),
            },
        ),
        Err(e) => Err(e),
    }
}

/// Calls `url::ParseError`'s `to_string`; nothing is claimed of the text.
#[verifier::external_body]
fn parse_error_text(error: &url::ParseError) -> (r: String) {
    error.to_string()
}

impl WebUrl {
    /// The URL's serialization, scheme and host.
    pub closed spec fn parts(&self) -> (Seq<char>, Seq<char>, Option<Seq<char>>) {
        (self.serialization@, self.scheme@, opt_text(self.host))
    }

    /// The URL's serialization.
    pub open spec fn text(&self) -> Seq<char> {
        self.parts().0
    }

    /// The URL's scheme.
    pub open spec fn scheme_text(&self) -> Seq<char> {
        self.parts().1
    }

    /// The URL's host, where it has one.
    pub open spec fn host_text(&self) -> Option<Seq<char>> {
        self.parts().2
    }

    /// Parses an absolute URL; nothing where `input` is not one.
    pub fn parse(input: &str) -> (r: Option<WebUrl>)
        ensures
            match url_parse(input@) {
                Some(parts) => r matches Some(u) && u.parts() == parts,
                None => r is None,
            },
    {
        match parse_url(input) {
            Ok(u) => Some(u),
            Err(_) => None,
        }
    }

    /// Parses an absolute URL; where `input` is not one, the parser's
    /// message.
    pub fn parse_or_error(input: &str) -> (r: Result<WebUrl, String>)
        ensures
            match url_parse(input@) {
                Some(parts) => r matches Ok(u) && u.parts() == parts,
                None => r is Err,
            },
    {
        match parse_url(input) {
            Ok(u) => Ok(u),
            Err(e) => Err(parse_error_text(&e)),
        }
    }

    /// The URL as text.
    pub fn as_str(&self) -> (r: &str)
        ensures
            r@ == self.text(),
    {
        self.serialization.as_str()
    }

    /// The URL's scheme.
    pub fn scheme(&self) -> (r: &str)
        ensures
            r@ == self.scheme_text(),
    {
        self.scheme.as_str()
    }

    /// The URL's host, where it has one.
    pub fn host_str(&self) -> (r: Option<&str>)
        ensures
            match self.host_text() {
                Some(h) => r matches Some(s) && s@ == h,
                None => r is None,
            },
    {
        match &self.host {
            Some(h) => Some(h.as_str()),
            None => None,
        }
    }
}

impl Clone for WebUrl {
    fn clone(&self) -> (r: Self)
        ensures
            r.parts() == self.parts(),
    {
        WebUrl {
            serialization: self.serialization.clone(),
            scheme: self.scheme.clone(),
            host: match &self.host {
                Some(h) => Some(h.clone()),
                None => None,
            },
        }
    }
}

} // verus!
