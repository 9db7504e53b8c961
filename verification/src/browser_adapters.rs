//! Adapters that know how a browser lays out its profiles and how to open
//! a link in one of them.

use vstd::prelude::*;

use crate::browser::{texts, BrowserCapabilities, BrowserDescriptor, BrowserProfile, OpenDisposition};
use crate::platform_api::BrowserOpenIntent;
use crate::web_url::WebUrl;

verus! {

/// A failure of a browser adapter.
#[derive(Debug, Clone, PartialEq, Eq)]
pub enum BrowserError {
    ProfileNotFound(String),
    Unsupported,
    Other(String),
}

impl BrowserError {
    /// The error's message.
    pub open spec fn message_spec(&self) -> Seq<char> {
        match self {
            BrowserError::ProfileNotFound(p) => "profile not found: "@ + p@,
            BrowserError::Unsupported => "browser does not support this capability"@,
            BrowserError::Other(m) => "browser error: "@ + m@,
        }
    }

    /// The error's message.
    pub fn message(&self) -> (r: String)
        ensures
            r@ == self.message_spec(),
    {
        match self {
            BrowserError::ProfileNotFound(p) => {
                let mut s = String::from_str("profile not found: ");
                s.append(p.as_str());
                s
            },
            BrowserError::Unsupported => String::from_str("browser does not support this capability"),
            BrowserError::Other(m) => {
                let mut s = String::from_str("browser error: ");
                s.append(m.as_str());
                s
            },
        }
    }
}

/// What an adapter offers for its browser.
pub trait BrowserAdapter {
    fn descriptor(&self) -> BrowserDescriptor;

    fn capabilities(&self) -> BrowserCapabilities;

    fn build_open_intent(
        &self,
        profile: &BrowserProfile,
        url: &WebUrl,
        disposition: OpenDisposition,
    ) -> Result<BrowserOpenIntent, BrowserError>;
}

/// The arguments that open `url` in a profile: the profile's own launch
/// arguments, the new-window flag where a new window is wanted, then the
/// link.
pub open spec fn open_args(launch_args: Seq<Seq<char>>, new_window: Option<Seq<char>>, url: Seq<char>) -> Seq<Seq<char>> {
    launch_args + (match new_window {
        Some(flag) => seq![flag],
        None => Seq::empty(),
    }) + seq![url]
}

/// Builds the arguments that open `url` in a profile.
pub fn build_open_args(launch_args: &Vec<String>, new_window_flag: Option<&str>, url: &WebUrl) -> (r: Vec<String>)
    ensures
        texts(r@) == open_args(
            texts(launch_args@),
            match new_window_flag {
                Some(f) => Some(f@),
                None => None,
            },
            url.text(),
        ),
{
    let mut args = crate::browser::copy_strings(launch_args);
    match new_window_flag {
        Some(flag) => args.push(flag.to_owned()),
        None => {},
    }
    args.push(url.as_str().to_owned());
    assert(texts(args@) =~= open_args(
        texts(launch_args@),
        match new_window_flag {
            Some(f) => Some(f@),
            None => None,
        },
        url.text(),
    ));
    args
}

} // verus!
