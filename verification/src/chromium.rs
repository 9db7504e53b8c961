//! Chromium-family browsers (Chrome, Edge, Brave): profile discovery from
//! the browser's profile directories, and opening links in a profile.

use vstd::prelude::*;

use crate::browser::{
    texts, BrowserCapabilities, BrowserDescriptor, BrowserProfile, OpenDisposition, ProfileView,
};
use crate::browser_adapters::{build_open_args, open_args, BrowserAdapter, BrowserError};
use crate::ids::{BrowserId, ProfileId};
use crate::local_state::{
    display_names_spec, json_object_field_texts_at, pair_texts, read_profile_display_names,
};
use crate::platform_api::BrowserOpenIntent;
use crate::routing::opt_profile;
use crate::text::{has_prefix, is_blank_spec, seq_less};
use crate::web_url::{opt_text, WebUrl};

verus! {

/// What a platform found in a Chromium browser's data directory: the names
/// of its subdirectories, and the contents of its `Local State` file where
/// it could be read.
#[derive(Debug)]
pub struct ProfileListing {
    pub directories: Vec<String>,
    pub local_state: Option<Vec<u8>>,
}

/// An adapter for a Chromium-family browser.
#[derive(Debug)]
pub struct ChromiumAdapter {
    browser_id: BrowserId,
    display_name: String,
    executable_hint: Option<String>,
    data_dir_name: String,
}

/// Whether a directory name is one of a Chromium profile: `Default` or
/// `Profile <n>`.
pub open spec fn is_profile_dir_name(name: Seq<char>) -> bool {
    name == "Default"@ || has_prefix(name, "Profile "@)
}

/// The display name that the first `n` entries give to directory `dir`:
/// the first non-blank one listed for it.
pub open spec fn listed_name_upto(names: Seq<(Seq<char>, Seq<char>)>, dir: Seq<char>, n: int) -> Option<Seq<char>>
    decreases n,
{
    if n <= 0 {
        None
    } else {
        match listed_name_upto(names, dir, n - 1) {
            Some(found) => Some(found),
            None => if names[n - 1].0 == dir && !is_blank_spec(names[n - 1].1) {
                Some(names[n - 1].1)
            } else {
                None
            },
        }
    }
}

/// The display name of profile directory `dir`: the listed one, else the
/// directory name itself.
pub open spec fn display_name_of(names: Seq<(Seq<char>, Seq<char>)>, dir: Seq<char>) -> Seq<char> {
    match listed_name_upto(names, dir, names.len() as int) {
        Some(n) => n,
        None => dir,
    }
}

/// The profile of directory `dir` of browser `browser`.
pub open spec fn chromium_profile(browser: Seq<char>, dir: Seq<char>, names: Seq<(Seq<char>, Seq<char>)>) -> ProfileView {
    ProfileView {
        browser_id: browser,
        profile_id: dir,
        display_name: display_name_of(names, dir),
        launch_args: seq!["--profile-directory="@ + dir],
        is_incognito: false,
    }
}

/// Where `x` goes in `s` to keep equal keys in arrival order: before the
/// first profile whose identifier comes after it.
pub open spec fn insert_pos(s: Seq<ProfileView>, x: ProfileView) -> nat
    decreases s.len(),
{
    if s.len() == 0 {
        0
    } else if seq_less(x.profile_id, s[0].profile_id) {
        0
    } else {
        1 + insert_pos(s.drop_first(), x)
    }
}

/// The profiles found among the first `n` directories, sorted by
/// identifier, equal identifiers in directory order.
pub open spec fn chromium_profiles_upto(browser: Seq<char>, dirs: Seq<String>, names: Seq<(Seq<char>, Seq<char>)>, n: int) -> Seq<ProfileView>
    decreases n,
{
    if n <= 0 {
        Seq::empty()
    } else {
        let prev = chromium_profiles_upto(browser, dirs, names, n - 1);
        if is_profile_dir_name(dirs[n - 1]@) {
            let p = chromium_profile(browser, dirs[n - 1]@, names);
            prev.insert(insert_pos(prev, p) as int, p)
        } else {
            prev
        }
    }
}

/// The display names that a listing's `Local State` gives to profile
/// directories; none where it could not be read.
pub open spec fn listing_display_names(listing: ProfileListing) -> Seq<(Seq<char>, Seq<char>)> {
    match listing.local_state {
        Some(bytes) => display_names_spec(
            json_object_field_texts_at(bytes@, "/profile/info_cache"@, "name"@),
        ),
        None => Seq::empty(),
    }
}

/// The profiles of a listing, sorted by identifier.
pub open spec fn chromium_profiles(browser: Seq<char>, listing: ProfileListing) -> Seq<ProfileView> {
    chromium_profiles_upto(
        browser,
        listing.directories@,
        listing_display_names(listing),
        listing.directories@.len() as int,
    )
}

proof fn lemma_insert_pos(s: Seq<ProfileView>, x: ProfileView, j: int)
    requires
        0 <= j <= s.len(),
        forall|k: int| 0 <= k < j ==> !seq_less(x.profile_id, #[trigger] s[k].profile_id),
        j == s.len() || seq_less(x.profile_id, s[j].profile_id),
    ensures
        insert_pos(s, x) == j,
    decreases s.len(),
{
    if s.len() > 0 && j > 0 {
        assert forall|k: int| 0 <= k < j - 1 implies !seq_less(
            x.profile_id,
            #[trigger] s.drop_first()[k].profile_id,
        ) by {
            assert(s.drop_first()[k] == s[k + 1]);
        }
        if j < s.len() {
            assert(s.drop_first()[j - 1] == s[j]);
        }
        lemma_insert_pos(s.drop_first(), x, j - 1);
    }
}

impl ChromiumAdapter {
    /// The browser's identifier.
    pub closed spec fn id_text(&self) -> Seq<char> {
        self.browser_id@
    }

    /// The browser's display name.
    pub closed spec fn name_text(&self) -> Seq<char> {
        self.display_name@
    }

    /// Where the browser's executable usually is.
    pub closed spec fn hint_text(&self) -> Option<Seq<char>> {
        opt_text(self.executable_hint)
    }

    /// The browser's data directory, relative to the platform's
    /// application data directory.
    pub closed spec fn data_dir_text(&self) -> Seq<char> {
        self.data_dir_name@
    }

    pub fn new(browser_id: &str, display_name: &str, executable_hint: Option<String>, data_dir_name: &str) -> (r: Self)
        ensures
            r.id_text() == browser_id@,
            r.name_text() == display_name@,
            r.hint_text() == opt_text(executable_hint),
            r.data_dir_text() == data_dir_name@,
    {
        ChromiumAdapter {
            browser_id: BrowserId::new(browser_id),
            display_name: display_name.to_owned(),
            executable_hint,
            data_dir_name: data_dir_name.to_owned(),
        }
    }

    /// The browser's data directory, relative to the platform's
    /// application data directory.
    pub fn data_dir_name(&self) -> (r: &str)
        ensures
            r@ == self.data_dir_text(),
    {
        self.data_dir_name.as_str()
    }

    /// The browser's profiles: every `Default` or `Profile <n>` directory,
    /// named as `Local State` lists it (else by its directory), launched
    /// with `--profile-directory=<dir>`, sorted by directory. An unknown
    /// data directory (no listing) is an error.
    pub fn discover_profiles(&self, listing: Option<&ProfileListing>) -> (r: Result<Vec<BrowserProfile>, BrowserError>)
        ensures
            match listing {
                None => r matches Err(BrowserError::Other(m)) && m@ == "browser data dir unknown"@,
                Some(l) => r matches Ok(v) && v@.map_values(|p: BrowserProfile| p@)
                    == chromium_profiles(self.id_text(), *l),
            },
    {
        let listing = match listing {
            Some(l) => l,
            None => return Err(BrowserError::Other(String::from_str("browser data dir unknown"))),
        };
        let dirs = &listing.directories;
        let names = read_profile_display_names(
            match &listing.local_state {
                Some(bytes) => Some(bytes.as_slice()),
                None => None,
            },
        );
        let ghost b = self.id_text();
        let mut out: Vec<BrowserProfile> = Vec::new();
        let mut i: usize = 0;
        while i < dirs.len()
            invariant
                b == self.id_text(),
                pair_texts(names@) == listing_display_names(*listing),
                i <= dirs@.len(),
                out@.map_values(|p: BrowserProfile| p@) == chromium_profiles_upto(
                    b,
                    dirs@,
                    pair_texts(names@),
                    i as int,
                ),
            decreases dirs.len() - i,
        {
            let name = dirs[i].as_str();
            if crate::text::text_eq(name, "Default") || crate::text::starts_with(name, "Profile ") {
                let profile = self.profile_for(name, &names);
                let ghost views = out@.map_values(|p: BrowserProfile| p@);
                let mut j: usize = 0;
                while j < out.len() && !crate::text::text_less(
                    profile.profile_id.as_str(),
                    out[j].profile_id.as_str(),
                )
                    invariant
                        j <= out@.len(),
                        views == out@.map_values(|p: BrowserProfile| p@),
                        forall|k: int|
                            0 <= k < j ==> !seq_less(
                                profile@.profile_id,
                                #[trigger] views[k].profile_id,
                            ),
                    decreases out.len() - j,
                {
                    j = j + 1;
                }
                proof {
                    lemma_insert_pos(views, profile@, j as int);
                }
                let ghost pv = profile@;
                out.insert(j, profile);
                assert(out@.map_values(|p: BrowserProfile| p@) =~= views.insert(j as int, pv));
            }
            i = i + 1;
        }
        Ok(out)
    }

    /// The profile of directory `dir`.
    fn profile_for(&self, dir: &str, names: &Vec<(String, String)>) -> (r: BrowserProfile)
        ensures
            r@ == chromium_profile(self.id_text(), dir@, pair_texts(names@)),
    {
        let mut arg = String::from_str("--profile-directory=");
        arg.append(dir);
        let mut args: Vec<String> = Vec::new();
        args.push(arg);
        let display = display_name_in(names, dir);
        let r = BrowserProfile {
            browser_id: self.browser_id.clone(),
            profile_id: ProfileId::new(dir),
            display_name: display,
            launch_args: args,
            is_incognito: false,
        };
        assert(r@ =~= chromium_profile(self.id_text(), dir@, pair_texts(names@)));
        r
    }
}

/// The display name of profile directory `dir`.
fn display_name_in(names: &Vec<(String, String)>, dir: &str) -> (r: String)
    ensures
        r@ == display_name_of(pair_texts(names@), dir@),
{
    let ghost ns = pair_texts(names@);
    let mut i: usize = 0;
    while i < names.len()
        invariant
            ns == pair_texts(names@),
            i <= names@.len(),
            listed_name_upto(ns, dir@, i as int) is None,
        decreases names.len() - i,
    {
        let (key, value) = &names[i];
        assert(ns[i as int] == (key@, value@));
        if crate::text::text_eq(key.as_str(), dir) && !crate::text::is_blank(value.as_str()) {
            proof {
                lemma_listed_name_stays(ns, dir@, i + 1, names@.len() as int);
            }
            return value.clone();
        }
        i = i + 1;
    }
    dir.to_owned()
}

proof fn lemma_listed_name_stays(names: Seq<(Seq<char>, Seq<char>)>, dir: Seq<char>, m: int, n: int)
    requires
        0 <= m <= n,
        listed_name_upto(names, dir, m) is Some,
    ensures
        listed_name_upto(names, dir, n) == listed_name_upto(names, dir, m),
    decreases n - m,
{
    if m < n {
        lemma_listed_name_stays(names, dir, m, n - 1);
    }
}

impl BrowserAdapter for ChromiumAdapter {
    fn descriptor(&self) -> (r: BrowserDescriptor)
        ensures
            r.id@ == self.id_text(),
            r.display_name@ == self.name_text(),
            opt_text(r.executable_hint) == self.hint_text(),
    {
        BrowserDescriptor {
            id: self.browser_id.clone(),
            display_name: self.display_name.clone(),
            executable_hint: match &self.executable_hint {
                Some(h) => Some(h.clone()),
                None => None,
            },
        }
    }

    /// Chromium profiles can be discovered, opened in an existing profile,
    /// and given a new window; windows are not mapped to profiles and
    /// incognito windows are not told apart.
    fn capabilities(&self) -> (r: BrowserCapabilities)
        ensures
            r.discover_profiles,
            !r.map_windows_to_profiles,
            r.open_in_existing_profile,
            r.create_profile_window,
            !r.distinguish_incognito,
    {
        BrowserCapabilities {
            discover_profiles: true,
            map_windows_to_profiles: false,
            open_in_existing_profile: true,
            create_profile_window: true,
            distinguish_incognito: false,
        }
    }

    /// Opens the link with the profile's arguments, `--new-window` for a
    /// new window, then the link.
    fn build_open_intent(&self, profile: &BrowserProfile, url: &WebUrl, disposition: OpenDisposition) -> (r: Result<BrowserOpenIntent, BrowserError>)
        ensures
            r matches Ok(intent) && intent.browser_id@ == self.id_text() && opt_profile(
                intent.profile_id,
            ) == Some(profile.profile_id@) && intent.url.parts() == url.parts() && texts(
                intent.args@,
            ) == open_args(
                texts(profile.launch_args@),
                if disposition == OpenDisposition::NewWindow {
                    Some("--new-window"@)
                } else {
                    None
                },
                url.text(),
            ) && intent.disposition == disposition,
    {
        let flag = if disposition == OpenDisposition::NewWindow {
            Some("--new-window")
        } else {
            None
        };
        let args = build_open_args(&profile.launch_args, flag, url);
        Ok(
            BrowserOpenIntent {
                browser_id: self.browser_id.clone(),
                profile_id: Some(profile.profile_id.clone()),
                url: url.clone(),
                args,
                disposition,
            },
        )
    }
}

/// Google Chrome.
pub struct ChromeAdapter;

/// Microsoft Edge.
pub struct EdgeAdapter;

/// Brave.
pub struct BraveAdapter;

impl ChromeAdapter {
    pub fn adapter() -> (r: ChromiumAdapter)
        ensures
            r.id_text() == "com.google.Chrome"@,
            r.name_text() == "Google Chrome"@,
            r.hint_text() == Some("/Applications/Google Chrome.app/Contents/MacOS/Google Chrome"@),
            r.data_dir_text() == "Google/Chrome"@,
    {
        ChromiumAdapter::new(
            "com.google.Chrome",
            "Google Chrome",
            Some(String::from_str("/Applications/Google Chrome.app/Contents/MacOS/Google Chrome")),
            "Google/Chrome",
        )
    }
}

impl EdgeAdapter {
    pub fn adapter() -> (r: ChromiumAdapter)
        ensures
            r.id_text() == "com.microsoft.edgemac"@,
            r.name_text() == "Microsoft Edge"@,
            r.hint_text() == Some("/Applications/Microsoft Edge.app/Contents/MacOS/Microsoft Edge"@),
            r.data_dir_text() == "Microsoft Edge"@,
    {
        ChromiumAdapter::new(
            "com.microsoft.edgemac",
            "Microsoft Edge",
            Some(String::from_str("/Applications/Microsoft Edge.app/Contents/MacOS/Microsoft Edge")),
            "Microsoft Edge",
        )
    }
}

impl BraveAdapter {
    pub fn adapter() -> (r: ChromiumAdapter)
        ensures
            r.id_text() == "com.brave.Browser"@,
            r.name_text() == "Brave Browser"@,
            r.hint_text() == Some("/Applications/Brave Browser.app/Contents/MacOS/Brave Browser"@),
            r.data_dir_text() == "BraveSoftware/Brave-Browser"@,
    {
        ChromiumAdapter::new(
            "com.brave.Browser",
            "Brave Browser",
            Some(String::from_str("/Applications/Brave Browser.app/Contents/MacOS/Brave Browser")),
            "BraveSoftware/Brave-Browser",
        )
    }
}

} // verus!
