//! Browsers, their profiles and the sessions observed at routing time.

use vstd::prelude::*;

use crate::ids::{BrowserId, ProfileId};

verus! {

/// A browser that the router knows how to drive.
#[derive(Debug)]
pub struct BrowserDescriptor {
    pub id: BrowserId,
    pub display_name: String,
    pub executable_hint: Option<String>,
}

/// What an adapter can do with a browser.
#[derive(Debug, Clone, Copy, PartialEq, Eq, Structural)]
pub struct BrowserCapabilities {
    pub discover_profiles: bool,
    pub map_windows_to_profiles: bool,
    pub open_in_existing_profile: bool,
    pub create_profile_window: bool,
    pub distinguish_incognito: bool,
}

impl Default for BrowserCapabilities {
    fn default() -> (r: Self)
        ensures
            !r.discover_profiles && !r.map_windows_to_profiles && !r.open_in_existing_profile
                && !r.create_profile_window && !r.distinguish_incognito,
    {
        BrowserCapabilities {
            discover_profiles: false,
            map_windows_to_profiles: false,
            open_in_existing_profile: false,
            create_profile_window: false,
            distinguish_incognito: false,
        }
    }
}

/// A profile of a browser: one browsing identity.
#[derive(Debug)]
pub struct BrowserProfile {
    pub browser_id: BrowserId,
    pub profile_id: ProfileId,
    pub display_name: String,
    pub launch_args: Vec<String>,
    pub is_incognito: bool,
}

/// The texts of a list of strings.
pub open spec fn texts(v: Seq<String>) -> Seq<Seq<char>> {
    v.map_values(|s: String| s@)
}

/// A profile as plain values.
#[verifier::ext_equal]
pub struct ProfileView {
    pub browser_id: Seq<char>,
    pub profile_id: Seq<char>,
    pub display_name: Seq<char>,
    pub launch_args: Seq<Seq<char>>,
    pub is_incognito: bool,
}

impl View for BrowserProfile {
    type V = ProfileView;

    open spec fn view(&self) -> ProfileView {
        ProfileView {
            browser_id: self.browser_id@,
            profile_id: self.profile_id@,
            display_name: self.display_name@,
            launch_args: texts(self.launch_args@),
            is_incognito: self.is_incognito,
        }
    }
}

/// A copy of a list of strings.
pub fn copy_strings(v: &Vec<String>) -> (r: Vec<String>)
    ensures
        r@ == v@,
{
    let mut out: Vec<String> = Vec::new();
    let mut i: usize = 0;
    while i < v.len()
        invariant
            i <= v@.len(),
            out@ == v@.subrange(0, i as int),
        decreases v.len() - i,
    {
        out.push(v[i].clone());
        i = i + 1;
        assert(out@ =~= v@.subrange(0, i as int));
    }
    assert(v@.subrange(0, v@.len() as int) =~= v@);
    out
}

impl BrowserProfile {
    /// Two profiles with the same fields.
    pub open spec fn same_as(self, other: Self) -> bool {
        &&& self.browser_id == other.browser_id
        &&& self.profile_id == other.profile_id
        &&& self.display_name == other.display_name
        &&& self.launch_args@ == other.launch_args@
        &&& self.is_incognito == other.is_incognito
    }
}

impl Clone for BrowserProfile {
    fn clone(&self) -> (r: Self)
        ensures
            r.same_as(*self),
    {
        let args = copy_strings(&self.launch_args);
        assert(args@ =~= self.launch_args@);
        BrowserProfile {
            browser_id: self.browser_id.clone(),
            profile_id: self.profile_id.clone(),
            display_name: self.display_name.clone(),
            launch_args: args,
            is_incognito: self.is_incognito,
        }
    }
}

/// A browser window, by the platform's reference for it.
#[derive(Debug)]
pub struct WindowRef(pub String);

/// A profile of a running browser, as seen when a link arrives.
#[derive(Debug)]
pub struct BrowserSession {
    pub browser_id: BrowserId,
    pub profile_id: ProfileId,
    pub windows: Vec<WindowRef>,
    pub is_incognito: bool,
    /// When the user last activated the profile, on a clock that only
    /// grows; absent where it was never observed.
    pub last_user_activation: Option<u64>,
}

impl BrowserSession {
    /// A session can take links when it has a window and is not incognito.
    pub open spec fn available(&self) -> bool {
        !self.is_incognito && self.windows@.len() > 0
    }

    /// Whether the session can take links: it has a window and is not
    /// incognito.
    pub fn is_available(&self) -> (r: bool)
        ensures
            r == self.available(),
    {
        !self.is_incognito && self.windows.len() > 0
    }
}

/// A browser profile named by its browser and profile identifiers.
#[derive(Debug)]
pub struct IdentityRef {
    pub browser_id: BrowserId,
    pub profile_id: ProfileId,
}

/// How a link is opened in the chosen profile.
#[derive(Debug, Clone, Copy, PartialEq, Eq, Structural)]
pub enum OpenDisposition {
    ActiveWindow,
    ExistingWindow,
    NewWindow,
}

} // verus!
