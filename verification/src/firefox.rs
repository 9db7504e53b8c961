//! Firefox: profiles from `profiles.ini`, and opening links in a profile.

use vstd::prelude::*;

use crate::browser::{
    texts, BrowserCapabilities, BrowserDescriptor, BrowserProfile, OpenDisposition, ProfileView,
};
use crate::browser_adapters::{build_open_args, open_args, BrowserAdapter, BrowserError};
use crate::ids::{BrowserId, ProfileId};
use crate::platform_api::BrowserOpenIntent;
use crate::routing::opt_profile;
use crate::text::{split_once_spec, split_spec, string_texts, trim_spec};
use crate::web_url::{opt_text, WebUrl};

verus! {

/// The Firefox identifier.
pub open spec fn firefox_id() -> Seq<char> {
    "org.mozilla.firefox"@
}

/// The profile named `name` stored at `path`.
pub open spec fn firefox_profile(name: Seq<char>, path: Seq<char>) -> ProfileView {
    ProfileView {
        browser_id: firefox_id(),
        profile_id: path,
        display_name: name,
        launch_args: seq!["-P"@, name, "-no-remote"@],
        is_incognito: false,
    }
}

/// What has been read of `profiles.ini`: the current section's `Name` and
/// `Path`, and the profiles of the sections already closed.
#[verifier::ext_equal]
pub struct IniState {
    pub name: Option<Seq<char>>,
    pub path: Option<Seq<char>>,
    pub profiles: Seq<ProfileView>,
}

/// The profiles once the current section closes: it adds a profile where
/// it had both a `Name` and a `Path`.
pub open spec fn close_section(st: IniState) -> Seq<ProfileView> {
    match (st.name, st.path) {
        (Some(n), Some(p)) => st.profiles.push(firefox_profile(n, p)),
        _ => st.profiles,
    }
}

/// Reading one line of `profiles.ini`: blank lines and comments (`;`, `#`)
/// change nothing; a `[section]` header closes the current section; a
/// `Name=` or `Path=` entry sets the current section's value (key and value
/// trimmed); other lines change nothing.
pub open spec fn ini_step(st: IniState, raw: Seq<char>) -> IniState {
    let line = trim_spec(raw);
    if line.len() == 0 || line[0] == ';' || line[0] == '#' {
        st
    } else if line[0] == '[' {
        IniState { name: None, path: None, profiles: close_section(st) }
    } else {
        match split_once_spec(line, '=') {
            Some((key, value)) => if trim_spec(key) == "Name"@ {
                IniState { name: Some(trim_spec(value)), ..st }
            } else if trim_spec(key) == "Path"@ {
                IniState { path: Some(trim_spec(value)), ..st }
            } else {
                st
            },
            None => st,
        }
    }
}

/// The state after reading the first `n` lines.
pub open spec fn ini_state_upto(lines: Seq<Seq<char>>, n: int) -> IniState
    decreases n,
{
    if n <= 0 {
        IniState { name: None, path: None, profiles: Seq::empty() }
    } else {
        ini_step(ini_state_upto(lines, n - 1), lines[n - 1])
    }
}

/// The profiles that `profiles.ini` declares, in file order.
pub open spec fn parse_profiles_ini_spec(content: Seq<char>) -> Seq<ProfileView> {
    let lines = split_spec(content, '\n');
    close_section(ini_state_upto(lines, lines.len() as int))
}

/// A Firefox profile.
fn make_profile(name: &str, path: &str) -> (r: BrowserProfile)
    ensures
        r@ == firefox_profile(name@, path@),
{
    let mut args: Vec<String> = Vec::new();
    args.push(String::from_str("-P"));
    args.push(name.to_owned());
    args.push(String::from_str("-no-remote"));
    let r = BrowserProfile {
        browser_id: BrowserId::new("org.mozilla.firefox"),
        profile_id: ProfileId::new(path),
        display_name: name.to_owned(),
        launch_args: args,
        is_incognito: false,
    };
    assert(r@ =~= firefox_profile(name@, path@));
    r
}

/// The text an optional string holds.
pub open spec fn opt_string(o: Option<String>) -> Option<Seq<char>> {
    opt_text(o)
}

/// Reads the profiles that a `profiles.ini` declares, in file order.
pub fn parse_profiles_ini(content: &str) -> (r: Vec<BrowserProfile>)
    ensures
        r@.map_values(|p: BrowserProfile| p@) == parse_profiles_ini_spec(content@),
{
    let lines = crate::text::split_text(content, '\n');
    let ghost ls = string_texts(lines@);
    let mut profiles: Vec<BrowserProfile> = Vec::new();
    let mut name: Option<String> = None;
    let mut path: Option<String> = None;
    let mut i: usize = 0;
    assert(profiles@.map_values(|p: BrowserProfile| p@) =~= Seq::<ProfileView>::empty());
    while i < lines.len()
        invariant
            ls == string_texts(lines@),
            ls == split_spec(content@, '\n'),
            i <= lines@.len(),
            ini_state_upto(ls, i as int) == (IniState {
                name: opt_string(name),
                path: opt_string(path),
                profiles: profiles@.map_values(|p: BrowserProfile| p@),
            }),
        decreases lines.len() - i,
    {
        let line = crate::text::trim(lines[i].as_str());
        assert(ls[i as int] == lines@[i as int]@);
        let n = line.unicode_len();
        if n == 0 {
        } else {
            let first = line.get_char(0);
            if first == ';' || first == '#' {
            } else if first == '[' {
                let ghost before = profiles@.map_values(|p: BrowserProfile| p@);
                match (&name, &path) {
                    (Some(nm), Some(pt)) => {
                        let p = make_profile(nm.as_str(), pt.as_str());
                        profiles.push(p);
                        assert(profiles@.map_values(|p: BrowserProfile| p@) =~= before.push(
                            firefox_profile(nm@, pt@),
                        ));
                    },
                    _ => {},
                }
                name = None;
                path = None;
            } else {
                match crate::text::split_once(line, '=') {
                    Some((key, value)) => {
                        let key = crate::text::trim(key);
                        if crate::text::text_eq(key, "Name") {
                            name = Some(crate::text::trim(value).to_owned());
                        } else if crate::text::text_eq(key, "Path") {
                            path = Some(crate::text::trim(value).to_owned());
                        }
                    },
                    None => {},
                }
            }
        }
        i = i + 1;
    }
    let ghost before = profiles@.map_values(|p: BrowserProfile| p@);
    match (&name, &path) {
        (Some(nm), Some(pt)) => {
            let p = make_profile(nm.as_str(), pt.as_str());
            profiles.push(p);
            assert(profiles@.map_values(|p: BrowserProfile| p@) =~= before.push(
                firefox_profile(nm@, pt@),
            ));
        },
        _ => {},
    }
    profiles
}

/// The Firefox adapter.
#[derive(Debug, Clone, Copy, PartialEq, Eq, Default)]
pub struct FirefoxAdapter;

impl FirefoxAdapter {
    /// The profiles that `profiles.ini` declares. An unknown data directory
    /// or an unreadable file is an error.
    pub fn discover_profiles(&self, profiles_ini: &Option<Result<String, String>>) -> (r: Result<Vec<BrowserProfile>, BrowserError>)
        ensures
            match profiles_ini {
                None => r matches Err(BrowserError::Other(m)) && m@ == "firefox data dir unknown"@,
                Some(Err(e)) => r matches Err(BrowserError::Other(m)) && m@
                    == "cannot read profiles.ini: "@ + e@,
                Some(Ok(content)) => r matches Ok(v) && v@.map_values(|p: BrowserProfile| p@)
                    == parse_profiles_ini_spec(content@),
            },
    {
        match profiles_ini {
            None => Err(BrowserError::Other(String::from_str("firefox data dir unknown"))),
            Some(Err(e)) => {
                let mut m = String::from_str("cannot read profiles.ini: ");
                m.append(e.as_str());
                Err(BrowserError::Other(m))
            },
            Some(Ok(content)) => Ok(parse_profiles_ini(content.as_str())),
        }
    }
}

impl BrowserAdapter for FirefoxAdapter {
    fn descriptor(&self) -> (r: BrowserDescriptor)
        ensures
            r.id@ == firefox_id(),
            r.display_name@ == "Firefox"@,
            opt_text(r.executable_hint) == Some("/Applications/Firefox.app/Contents/MacOS/firefox"@),
    {
        BrowserDescriptor {
            id: BrowserId::new("org.mozilla.firefox"),
            display_name: String::from_str("Firefox"),
            executable_hint: Some(String::from_str("/Applications/Firefox.app/Contents/MacOS/firefox")),
        }
    }

    /// Firefox profiles can be discovered and given a new window; they
    /// cannot be opened in an existing profile window, windows are not
    /// mapped to profiles, and incognito windows are not told apart.
    fn capabilities(&self) -> (r: BrowserCapabilities)
        ensures
            r.discover_profiles,
            !r.map_windows_to_profiles,
            !r.open_in_existing_profile,
            r.create_profile_window,
            !r.distinguish_incognito,
    {
        BrowserCapabilities {
            discover_profiles: true,
            map_windows_to_profiles: false,
            open_in_existing_profile: false,
            create_profile_window: true,
            distinguish_incognito: false,
        }
    }

    /// Opens the link with the profile's arguments, `-new-window` for a
    /// new window, then the link.
    fn build_open_intent(&self, profile: &BrowserProfile, url: &WebUrl, disposition: OpenDisposition) -> (r: Result<BrowserOpenIntent, BrowserError>)
        ensures
            r matches Ok(intent) && intent.browser_id@ == firefox_id() && opt_profile(
                intent.profile_id,
            ) == Some(profile.profile_id@) && intent.url.parts() == url.parts() && texts(
                intent.args@,
            ) == open_args(
                texts(profile.launch_args@),
                if disposition == OpenDisposition::NewWindow {
                    Some("-new-window"@)
                } else {
                    None
                },
                url.text(),
            ) && intent.disposition == disposition,
    {
        let flag = if disposition == OpenDisposition::NewWindow {
            Some("-new-window")
        } else {
            None
        };
        let args = build_open_args(&profile.launch_args, flag, url);
        Ok(
            BrowserOpenIntent {
                browser_id: BrowserId::new("org.mozilla.firefox"),
                profile_id: Some(profile.profile_id.clone()),
                url: url.clone(),
                args,
                disposition,
            },
        )
    }
}

} // verus!
