//! Windows integration: where browsers are installed and keep their data,
//! which running processes are supported browsers, the URL-handler
//! registration the router writes to the registry, and what the system
//! reports about default handlers.

use vstd::prelude::*;

use crate::ids::BrowserId;
use crate::platform_api::PlatformError;
use crate::text::{has_prefix, is_blank_spec, split_spec, string_texts, trim_spec};
use crate::web_url::opt_text;

verus! {

/// The programmatic identifier under which the router handles URLs.
pub const URL_PROG_ID: &'static str = "LinkHelm.Url";

/// The name under which the router registers as an application.
pub const REGISTERED_APP_NAME: &'static str = "Link Helm";

/// The Default Apps page of Windows Settings, opened on the router.
pub const DEFAULT_APPS_URI: &'static str = "ms-settings:defaultapps?registeredAppUser=Link%20Helm";

/// Whether the router is the default web browser, and what handles
/// `http` and `https` links.
#[derive(Debug, Clone, PartialEq, Eq)]
pub struct SystemIntegrationStatus {
    pub http_handler: Option<String>,
    pub https_handler: Option<String>,
    pub is_default_browser: bool,
    pub accessibility_trusted: bool,
    pub accessibility_required: bool,
}

/// The directories that Windows names by environment variable.
#[derive(Debug, Clone, Copy, PartialEq, Eq, Structural)]
pub enum WindowsRoot {
    /// `LOCALAPPDATA`
    LocalAppData,
    /// `APPDATA`
    AppData,
    /// `ProgramFiles`
    ProgramFiles,
    /// `ProgramFiles(x86)`
    ProgramFilesX86,
}

/// Whether `c` separates path components on Windows.
pub open spec fn is_windows_sep(c: char) -> bool {
    c == '\\' || c == '/'
}

/// Whether `base` is a bare drive such as `C:`.
pub open spec fn is_bare_drive(base: Seq<char>) -> bool {
    base.len() == 2 && base[1] == ':' && (('a' <= base[0] && base[0] <= 'z') || ('A' <= base[0]
        && base[0] <= 'Z'))
}

/// `base` joined with the relative path `rel` (`Path::join` on Windows): a
/// backslash goes between them unless `base` is empty, ends in a separator,
/// or is a bare drive.
pub open spec fn windows_join(base: Seq<char>, rel: Seq<char>) -> Seq<char> {
    if base.len() == 0 || is_windows_sep(base.last()) || is_bare_drive(base) {
        base + rel
    } else {
        base + seq!['\\'] + rel
    }
}

/// Joins a relative path to a directory the way Windows does.
pub fn join_windows_path(base: &str, rel: &str) -> (r: String)
    ensures
        r@ == windows_join(base@, rel@),
{
    let n = base.unicode_len();
    let mut s = String::from_str(base);
    let plain = if n == 0 {
        true
    } else {
        let last = base.get_char(n - 1);
        if last == '\\' || last == '/' {
            true
        } else if n == 2 {
            let first = base.get_char(0);
            base.get_char(1) == ':' && (('a' <= first && first <= 'z') || ('A' <= first && first
                <= 'Z'))
        } else {
            false
        }
    };
    if !plain {
        s.append("\\");
        proof {
            reveal_strlit("\\");
            assert(s@ =~= base@ + seq!['\\']);
        }
    }
    s.append(rel);
    s
}

/// The Windows platform, given the directories that `LOCALAPPDATA`,
/// `APPDATA`, `ProgramFiles` and `ProgramFiles(x86)` name.
#[derive(Debug, Clone)]
pub struct WindowsPlatformAdapter {
    local_app_data: Option<String>,
    app_data: Option<String>,
    program_files: Option<String>,
    program_files_x86: Option<String>,
}

/// Where a supported browser's executable is, relative to the roots it is
/// looked for under, in the order they are tried.
pub open spec fn executable_roots(id: Seq<char>) -> Seq<(WindowsRoot, Seq<char>)> {
    if id == "com.google.Chrome"@ {
        seq![
            (WindowsRoot::LocalAppData, "Google/Chrome/Application/chrome.exe"@),
            (WindowsRoot::ProgramFiles, "Google/Chrome/Application/chrome.exe"@),
            (WindowsRoot::ProgramFilesX86, "Google/Chrome/Application/chrome.exe"@),
        ]
    } else if id == "com.microsoft.edgemac"@ {
        seq![
            (WindowsRoot::ProgramFilesX86, "Microsoft/Edge/Application/msedge.exe"@),
            (WindowsRoot::ProgramFiles, "Microsoft/Edge/Application/msedge.exe"@),
            (WindowsRoot::LocalAppData, "Microsoft/Edge/Application/msedge.exe"@),
        ]
    } else if id == "com.brave.Browser"@ {
        seq![
            (WindowsRoot::LocalAppData, "BraveSoftware/Brave-Browser/Application/brave.exe"@),
            (WindowsRoot::ProgramFiles, "BraveSoftware/Brave-Browser/Application/brave.exe"@),
            (WindowsRoot::ProgramFilesX86, "BraveSoftware/Brave-Browser/Application/brave.exe"@),
        ]
    } else if id == "org.mozilla.firefox"@ {
        seq![
            (WindowsRoot::ProgramFiles, "Mozilla Firefox/firefox.exe"@),
            (WindowsRoot::ProgramFilesX86, "Mozilla Firefox/firefox.exe"@),
            (WindowsRoot::LocalAppData, "Mozilla Firefox/firefox.exe"@),
        ]
    } else {
        Seq::empty()
    }
}

/// Where a supported browser keeps its data: a root and a path under it.
pub open spec fn data_root(id: Seq<char>) -> Option<(WindowsRoot, Seq<char>)> {
    if id == "com.google.Chrome"@ {
        Some((WindowsRoot::LocalAppData, "Google/Chrome/User Data"@))
    } else if id == "com.microsoft.edgemac"@ {
        Some((WindowsRoot::LocalAppData, "Microsoft/Edge/User Data"@))
    } else if id == "com.brave.Browser"@ {
        Some((WindowsRoot::LocalAppData, "BraveSoftware/Brave-Browser/User Data"@))
    } else if id == "org.mozilla.firefox"@ {
        Some((WindowsRoot::AppData, "Mozilla/Firefox"@))
    } else {
        None
    }
}

/// The browser that an executable's (lower-case) file name belongs to.
pub open spec fn browser_for_process(name: Seq<char>) -> Option<Seq<char>> {
    if name == "chrome.exe"@ {
        Some("com.google.Chrome"@)
    } else if name == "msedge.exe"@ {
        Some("com.microsoft.edgemac"@)
    } else if name == "brave.exe"@ {
        Some("com.brave.Browser"@)
    } else if name == "firefox.exe"@ {
        Some("org.mozilla.firefox"@)
    } else {
        None
    }
}

/// The supported browsers among the first `n` process names, each once, in
/// order of first appearance.
pub open spec fn running_browsers_upto(names: Seq<Seq<char>>, n: int) -> Seq<Seq<char>>
    decreases n,
{
    if n <= 0 {
        Seq::empty()
    } else {
        let prev = running_browsers_upto(names, n - 1);
        match browser_for_process(names[n - 1]) {
            Some(id) => if prev.contains(id) {
                prev
            } else {
                prev.push(id)
            },
            None => prev,
        }
    }
}

/// The identifiers of a list of browser ids.
pub open spec fn browser_ids(v: Seq<BrowserId>) -> Seq<Seq<char>> {
    v.map_values(|b: BrowserId| b@)
}

/// The browser for a process's executable file name (`chrome.exe`, ...).
pub fn browser_id_for_process(process_name: &str) -> (r: Option<BrowserId>)
    ensures
        match r {
            Some(b) => browser_for_process(process_name@) == Some(b@),
            None => browser_for_process(process_name@) is None,
        },
{
    if crate::text::text_eq(process_name, "chrome.exe") {
        Some(BrowserId::new("com.google.Chrome"))
    } else if crate::text::text_eq(process_name, "msedge.exe") {
        Some(BrowserId::new("com.microsoft.edgemac"))
    } else if crate::text::text_eq(process_name, "brave.exe") {
        Some(BrowserId::new("com.brave.Browser"))
    } else if crate::text::text_eq(process_name, "firefox.exe") {
        Some(BrowserId::new("org.mozilla.firefox"))
    } else {
        None
    }
}

/// Whether a list of browser ids holds `id`.
fn holds_browser(v: &Vec<BrowserId>, id: &BrowserId) -> (r: bool)
    ensures
        r == browser_ids(v@).contains(id@),
{
    let mut i: usize = 0;
    while i < v.len()
        invariant
            i <= v@.len(),
            forall|j: int| 0 <= j < i ==> (#[trigger] v@[j])@ != id@,
        decreases v.len() - i,
    {
        if crate::text::text_eq(v[i].as_str(), id.as_str()) {
            assert(browser_ids(v@)[i as int] == id@);
            return true;
        }
        i = i + 1;
    }
    assert forall|j: int| 0 <= j < browser_ids(v@).len() implies browser_ids(v@)[j] != id@ by {
        assert(browser_ids(v@)[j] == v@[j]@);
    }
    false
}

/// The first line among the first `n` lines of `installs.ini` that, once
/// trimmed, reads `Default=` and a non-blank value: that value.
pub open spec fn install_default_upto(lines: Seq<Seq<char>>, n: int) -> Option<Seq<char>>
    decreases n,
{
    if n <= 0 {
        None
    } else {
        match install_default_upto(lines, n - 1) {
            Some(v) => Some(v),
            None => {
                let line = trim_spec(lines[n - 1]);
                if has_prefix(line, "Default="@) && !is_blank_spec(line.skip(8)) {
                    Some(line.skip(8))
                } else {
                    None
                }
            },
        }
    }
}

/// The profile that Firefox's `installs.ini` names as default.
pub open spec fn install_default_spec(content: Seq<char>) -> Option<Seq<char>> {
    let lines = split_spec(content, '\n');
    install_default_upto(lines, lines.len() as int)
}

proof fn lemma_install_default_stays(lines: Seq<Seq<char>>, m: int, n: int)
    requires
        0 <= m <= n,
        install_default_upto(lines, m) is Some,
    ensures
        install_default_upto(lines, n) == install_default_upto(lines, m),
    decreases n - m,
{
    if m < n {
        lemma_install_default_stays(lines, m, n - 1);
    }
}

/// The profile that Firefox's `installs.ini` names as default: the value
/// of the first `Default=` line that has a non-blank one.
pub fn firefox_default_profile(installs_ini: &str) -> (r: Option<String>)
    ensures
        opt_text(r) == install_default_spec(installs_ini@),
{
    let lines = crate::text::split_text(installs_ini, '\n');
    let ghost ls = string_texts(lines@);
    let mut i: usize = 0;
    while i < lines.len()
        invariant
            ls == string_texts(lines@),
            ls == split_spec(installs_ini@, '\n'),
            i <= lines@.len(),
            install_default_upto(ls, i as int) is None,
        decreases lines.len() - i,
    {
        assert(ls[i as int] == lines@[i as int]@);
        let line = crate::text::trim(lines[i].as_str());
        match crate::text::strip_prefix(line, "Default=") {
            Some(value) => {
                proof {
                    reveal_strlit("Default=");
                }
                if !crate::text::is_blank(value) {
                    proof {
                        lemma_install_default_stays(ls, i + 1, ls.len() as int);
                    }
                    return Some(value.to_owned());
                }
            },
            None => {},
        }
        i = i + 1;
    }
    None
}

/// The value a registry key is given: the key's path under
/// `HKEY_CURRENT_USER`, the value's name (empty for the default value) and
/// its text.
#[derive(Debug, Clone, PartialEq, Eq)]
pub struct RegistryValue {
    pub key: String,
    pub name: String,
    pub value: String,
}

/// The texts of a registry value.
pub open spec fn registry_texts(v: RegistryValue) -> (Seq<char>, Seq<char>, Seq<char>) {
    (v.key@, v.name@, v.value@)
}

/// A path in double quotes, then `,0`: an icon reference.
pub open spec fn icon_ref(executable: Seq<char>) -> Seq<char> {
    "\""@ + executable + "\",0"@
}

/// The command that opens a link with the router.
pub open spec fn open_command(executable: Seq<char>) -> Seq<char> {
    "\""@ + executable + "\" \"%1\""@
}

/// The registry values that make the router a URL handler, in the order
/// they are written: the `LinkHelm.Url` class with its icon and open
/// command, the application's capabilities with its URL associations, and
/// its entry among the registered applications.
pub open spec fn url_handler_values(executable: Seq<char>) -> Seq<(Seq<char>, Seq<char>, Seq<char>)> {
    seq![
        ("Software\\Classes\\LinkHelm.Url"@, ""@, "Link Helm URL"@),
        ("Software\\Classes\\LinkHelm.Url"@, "URL Protocol"@, ""@),
        ("Software\\Classes\\LinkHelm.Url\\DefaultIcon"@, ""@, icon_ref(executable)),
        ("Software\\Classes\\LinkHelm.Url\\shell\\open\\command"@, ""@, open_command(executable)),
        ("Software\\LinkHelm\\Capabilities"@, "ApplicationName"@, "Link Helm"@),
        ("Software\\LinkHelm\\Capabilities"@, "ApplicationIcon"@, icon_ref(executable)),
        (
            "Software\\LinkHelm\\Capabilities"@,
            "ApplicationDescription"@,
            "Routes web links to browser profiles"@,
        ),
        ("Software\\LinkHelm\\Capabilities\\UrlAssociations"@, "http"@, "LinkHelm.Url"@),
        ("Software\\LinkHelm\\Capabilities\\UrlAssociations"@, "https"@, "LinkHelm.Url"@),
        ("Software\\RegisteredApplications"@, "Link Helm"@, "Software\\LinkHelm\\Capabilities"@),
    ]
}

/// A registry value from literals.
fn registry_value(key: &str, name: &str, value: String) -> (r: RegistryValue)
    ensures
        registry_texts(r) == (key@, name@, value@),
{
    RegistryValue { key: key.to_owned(), name: name.to_owned(), value }
}

/// `"<executable>",0`
fn icon_text(executable: &str) -> (r: String)
    ensures
        r@ == icon_ref(executable@),
{
    let mut s = String::from_str("\"");
    s.append(executable);
    s.append("\",0");
    s
}

/// The registry values that register the router, with the given path of
/// its executable, as the handler of `http` and `https` links.
pub fn url_handler_registry_values(executable: &str) -> (r: Vec<RegistryValue>)
    ensures
        r@.map_values(|v: RegistryValue| registry_texts(v)) == url_handler_values(executable@),
{
    let mut command = String::from_str("\"");
    command.append(executable);
    command.append("\" \"%1\"");
    let mut r: Vec<RegistryValue> = Vec::new();
    r.push(registry_value("Software\\Classes\\LinkHelm.Url", "", String::from_str("Link Helm URL")));
    r.push(registry_value("Software\\Classes\\LinkHelm.Url", "URL Protocol", String::from_str("")));
    r.push(registry_value("Software\\Classes\\LinkHelm.Url\\DefaultIcon", "", icon_text(executable)));
    r.push(registry_value("Software\\Classes\\LinkHelm.Url\\shell\\open\\command", "", command));
    r.push(registry_value("Software\\LinkHelm\\Capabilities", "ApplicationName", String::from_str("Link Helm")));
    r.push(registry_value("Software\\LinkHelm\\Capabilities", "ApplicationIcon", icon_text(executable)));
    r.push(
        registry_value(
            "Software\\LinkHelm\\Capabilities",
            "ApplicationDescription",
            String::from_str("Routes web links to browser profiles"),
        ),
    );
    r.push(registry_value("Software\\LinkHelm\\Capabilities\\UrlAssociations", "http", String::from_str("LinkHelm.Url")));
    r.push(registry_value("Software\\LinkHelm\\Capabilities\\UrlAssociations", "https", String::from_str("LinkHelm.Url")));
    r.push(
        registry_value(
            "Software\\RegisteredApplications",
            "Link Helm",
            String::from_str("Software\\LinkHelm\\Capabilities"),
        ),
    );
    assert(r@.map_values(|v: RegistryValue| registry_texts(v)) =~= url_handler_values(executable@));
    r
}

/// The error for a failed registry update.
pub fn registry_error(message: &str) -> (r: PlatformError)
    ensures
        r matches PlatformError::Failed(m) && m@ == "Windows registry update failed: "@ + message@,
{
    let mut m = String::from_str("Windows registry update failed: ");
    m.append(message);
    PlatformError::Failed(m)
}

/// The answer of the application chooser: a failed run is an error with
/// its message; a successful one gives the chosen file name (trimmed),
/// or nothing where none was chosen.
pub open spec fn windows_chooser_answer(success: bool, stdout: Seq<char>, stderr: Seq<char>) -> Result<Option<Seq<char>>, Seq<char>> {
    if !success {
        Err("application chooser failed: "@ + trim_spec(stderr))
    } else if trim_spec(stdout).len() == 0 {
        Ok(None)
    } else {
        Ok(Some(trim_spec(stdout)))
    }
}

/// Reads the application chooser's answer from its exit status and output.
pub fn parse_windows_chooser_output(success: bool, stdout: &str, stderr: &str) -> (r: Result<Option<String>, PlatformError>)
    ensures
        match windows_chooser_answer(success, stdout@, stderr@) {
            Ok(Some(b)) => r matches Ok(Some(s)) && s@ == b,
            Ok(None) => r matches Ok(None),
            Err(m) => r matches Err(PlatformError::Failed(e)) && e@ == m,
        },
{
    if !success {
        let mut m = String::from_str("application chooser failed: ");
        m.append(crate::text::trim(stderr));
        return Err(PlatformError::Failed(m));
    }
    let application_id = crate::text::trim(stdout);
    if application_id.unicode_len() == 0 {
        Ok(None)
    } else {
        Ok(Some(application_id.to_owned()))
    }
}

/// The text of a signed number in decimal.
pub open spec fn signed_decimal(n: int) -> Seq<char> {
    if n < 0 {
        "-"@ + crate::text::decimal_spec((-n) as nat)
    } else {
        crate::text::decimal_spec(n as nat)
    }
}

/// The outcome of `ShellExecuteW`, from the value it returned: more than 32
/// is success; anything else is an error that quotes the value.
pub fn shell_open_outcome(context: &str, code: i64) -> (r: Result<(), PlatformError>)
    ensures
        code > 32 ==> r is Ok,
        code <= 32 ==> (r matches Err(PlatformError::Failed(m)) && m@ == context@
            + ": ShellExecuteW returned "@ + signed_decimal(code as int)),
{
    if code > 32 {
        return Ok(());
    }
    let mut m = String::from_str(context);
    m.append(": ShellExecuteW returned ");
    if code < 0 {
        m.append("-");
        let magnitude: u64 = if code == i64::MIN {
            9223372036854775808u64
        } else {
            (-code) as u64
        };
        let d = crate::text::decimal(magnitude);
        m.append(d.as_str());
    } else {
        let d = crate::text::decimal(code as u64);
        m.append(d.as_str());
    }
    Err(PlatformError::Failed(m))
}

/// Whether both handlers are the router's URL class.
pub open spec fn is_router_default(http: Option<Seq<char>>, https: Option<Seq<char>>) -> bool {
    http == Some("LinkHelm.Url"@) && https == Some("LinkHelm.Url"@)
}

impl WindowsPlatformAdapter {
    /// The directory a root names, where it is set.
    pub closed spec fn root_text(&self, root: WindowsRoot) -> Option<Seq<char>> {
        match root {
            WindowsRoot::LocalAppData => opt_text(self.local_app_data),
            WindowsRoot::AppData => opt_text(self.app_data),
            WindowsRoot::ProgramFiles => opt_text(self.program_files),
            WindowsRoot::ProgramFilesX86 => opt_text(self.program_files_x86),
        }
    }

    /// The paths under the set roots, in order.
    pub open spec fn candidates_upto(&self, roots: Seq<(WindowsRoot, Seq<char>)>, n: int) -> Seq<Seq<char>>
        decreases n,
    {
        if n <= 0 {
            Seq::empty()
        } else {
            let prev = self.candidates_upto(roots, n - 1);
            match self.root_text(roots[n - 1].0) {
                Some(base) => prev.push(windows_join(base, roots[n - 1].1)),
                None => prev,
            }
        }
    }

    /// Where a supported browser's executable may be, in the order tried.
    pub open spec fn executable_candidates(&self, id: Seq<char>) -> Seq<Seq<char>> {
        self.candidates_upto(executable_roots(id), executable_roots(id).len() as int)
    }

    /// The platform for the given `LOCALAPPDATA`, `APPDATA`,
    /// `ProgramFiles` and `ProgramFiles(x86)` directories.
    pub fn new(local_app_data: Option<String>, app_data: Option<String>, program_files: Option<String>, program_files_x86: Option<String>) -> (r: Self)
        ensures
            r.root_text(WindowsRoot::LocalAppData) == opt_text(local_app_data),
            r.root_text(WindowsRoot::AppData) == opt_text(app_data),
            r.root_text(WindowsRoot::ProgramFiles) == opt_text(program_files),
            r.root_text(WindowsRoot::ProgramFilesX86) == opt_text(program_files_x86),
    {
        WindowsPlatformAdapter { local_app_data, app_data, program_files, program_files_x86 }
    }

    /// The directory a root names.
    fn root(&self, root: WindowsRoot) -> (r: &Option<String>)
        ensures
            opt_text(*r) == self.root_text(root),
    {
        match root {
            WindowsRoot::LocalAppData => &self.local_app_data,
            WindowsRoot::AppData => &self.app_data,
            WindowsRoot::ProgramFiles => &self.program_files,
            WindowsRoot::ProgramFilesX86 => &self.program_files_x86,
        }
    }

    /// Adds the path `rel` under `root` where the root is set.
    fn push_candidate(&self, out: &mut Vec<String>, root: WindowsRoot, rel: &str)
        ensures
            string_texts(final(out)@) == match self.root_text(root) {
                Some(base) => string_texts(old(out)@).push(windows_join(base, rel@)),
                None => string_texts(old(out)@),
            },
    {
        match self.root(root) {
            Some(base) => {
                let ghost before = string_texts(out@);
                out.push(join_windows_path(base.as_str(), rel));
                assert(string_texts(out@) =~= before.push(windows_join(base@, rel@)));
            },
            None => {},
        }
    }

    /// Where a supported browser's executable may be: its usual paths under
    /// the roots that are set, in the order they are tried.
    pub fn browser_executable_candidates(&self, browser_id: &BrowserId) -> (r: Vec<String>)
        ensures
            string_texts(r@) == self.executable_candidates(browser_id@),
    {
        let id = browser_id.as_str();
        let ghost roots = executable_roots(id@);
        let mut out: Vec<String> = Vec::new();
        assert(string_texts(out@) =~= Seq::<Seq<char>>::empty());
        let (first, second, third, rel) = if crate::text::text_eq(id, "com.google.Chrome") {
            (
                WindowsRoot::LocalAppData,
                WindowsRoot::ProgramFiles,
                WindowsRoot::ProgramFilesX86,
                "Google/Chrome/Application/chrome.exe",
            )
        } else if crate::text::text_eq(id, "com.microsoft.edgemac") {
            (
                WindowsRoot::ProgramFilesX86,
                WindowsRoot::ProgramFiles,
                WindowsRoot::LocalAppData,
                "Microsoft/Edge/Application/msedge.exe",
            )
        } else if crate::text::text_eq(id, "com.brave.Browser") {
            (
                WindowsRoot::LocalAppData,
                WindowsRoot::ProgramFiles,
                WindowsRoot::ProgramFilesX86,
                "BraveSoftware/Brave-Browser/Application/brave.exe",
            )
        } else if crate::text::text_eq(id, "org.mozilla.firefox") {
            (
                WindowsRoot::ProgramFiles,
                WindowsRoot::ProgramFilesX86,
                WindowsRoot::LocalAppData,
                "Mozilla Firefox/firefox.exe",
            )
        } else {
            assert(roots.len() == 0);
            return out;
        };
        assert(roots == seq![(first, rel@), (second, rel@), (third, rel@)]);
        assert(self.candidates_upto(roots, 0) =~= Seq::<Seq<char>>::empty());
        assert(roots[0] == (first, rel@));
        self.push_candidate(&mut out, first, rel);
        assert(string_texts(out@) =~= self.candidates_upto(roots, 1));
        self.push_candidate(&mut out, second, rel);
        assert(string_texts(out@) =~= self.candidates_upto(roots, 2));
        self.push_candidate(&mut out, third, rel);
        assert(string_texts(out@) =~= self.candidates_upto(roots, 3));
        out
    }

    /// The executable of a supported browser: the first of its candidate
    /// paths that the platform found to be a file.
    pub fn browser_executable(&self, browser_id: &BrowserId, existing_files: &Vec<String>) -> (r: Option<String>)
        ensures
            match r {
                Some(p) => exists|i: int|
                    0 <= i < self.executable_candidates(browser_id@).len() && #[trigger] self.executable_candidates(
                        browser_id@,
                    )[i] == p@ && string_texts(existing_files@).contains(p@) && forall|j: int|
                        0 <= j < i ==> !string_texts(existing_files@).contains(
                            #[trigger] self.executable_candidates(browser_id@)[j],
                        ),
                None => forall|i: int|
                    0 <= i < self.executable_candidates(browser_id@).len() ==> !string_texts(
                        existing_files@,
                    ).contains(#[trigger] self.executable_candidates(browser_id@)[i]),
            },
    {
        let candidates = self.browser_executable_candidates(browser_id);
        let ghost cs = string_texts(candidates@);
        let mut i: usize = 0;
        while i < candidates.len()
            invariant
                cs == string_texts(candidates@),
                cs == self.executable_candidates(browser_id@),
                i <= candidates@.len(),
                forall|j: int| 0 <= j < i ==> !string_texts(existing_files@).contains(#[trigger] cs[j]),
            decreases candidates.len() - i,
        {
            let c = candidates[i].as_str();
            assert(cs[i as int] == c@);
            proof {
                crate::guard::lemma_text_set_contains(existing_files@, c@);
            }
            if crate::guard::text_list_holds(existing_files, c) {
                return Some(c.to_owned());
            }
            i = i + 1;
        }
        None
    }

    /// Where a supported browser keeps its data: Chrome, Edge and Brave
    /// under `LOCALAPPDATA`, Firefox under `APPDATA`.
    pub fn browser_data_dir(&self, browser_id: &BrowserId) -> (r: Option<String>)
        ensures
            match data_root(browser_id@) {
                Some((root, rel)) => match self.root_text(root) {
                    Some(base) => r matches Some(d) && d@ == windows_join(base, rel),
                    None => r is None,
                },
                None => r is None,
            },
    {
        let id = browser_id.as_str();
        let (root, rel) = if crate::text::text_eq(id, "com.google.Chrome") {
            (WindowsRoot::LocalAppData, "Google/Chrome/User Data")
        } else if crate::text::text_eq(id, "com.microsoft.edgemac") {
            (WindowsRoot::LocalAppData, "Microsoft/Edge/User Data")
        } else if crate::text::text_eq(id, "com.brave.Browser") {
            (WindowsRoot::LocalAppData, "BraveSoftware/Brave-Browser/User Data")
        } else if crate::text::text_eq(id, "org.mozilla.firefox") {
            (WindowsRoot::AppData, "Mozilla/Firefox")
        } else {
            return None;
        };
        match self.root(root) {
            Some(base) => Some(join_windows_path(base.as_str(), rel)),
            None => None,
        }
    }

    /// The supported browsers among the running processes' executable file
    /// names (lower case), each once, in order of first appearance.
    pub fn running_supported_browser_ids(&self, process_names: &Vec<String>) -> (r: Vec<BrowserId>)
        ensures
            browser_ids(r@) == running_browsers_upto(
                string_texts(process_names@),
                process_names@.len() as int,
            ),
    {
        let ghost names = string_texts(process_names@);
        let mut out: Vec<BrowserId> = Vec::new();
        let mut i: usize = 0;
        assert(browser_ids(out@) =~= Seq::<Seq<char>>::empty());
        while i < process_names.len()
            invariant
                names == string_texts(process_names@),
                i <= process_names@.len(),
                browser_ids(out@) == running_browsers_upto(names, i as int),
            decreases process_names.len() - i,
        {
            assert(names[i as int] == process_names@[i as int]@);
            match browser_id_for_process(process_names[i].as_str()) {
                Some(id) => {
                    if !holds_browser(&out, &id) {
                        let ghost before = browser_ids(out@);
                        out.push(id);
                        assert(browser_ids(out@) =~= before.push(id@));
                    }
                },
                None => {},
            }
            i = i + 1;
        }
        out
    }

    /// The integration status, from the `UserChoice` handlers of `http`
    /// and `https`: the router is the default browser where both are its
    /// URL class. Windows asks no Accessibility permission.
    pub fn system_status(&self, http_handler: Option<String>, https_handler: Option<String>) -> (r: SystemIntegrationStatus)
        ensures
            opt_text(r.http_handler) == opt_text(http_handler),
            opt_text(r.https_handler) == opt_text(https_handler),
            r.is_default_browser == is_router_default(opt_text(http_handler), opt_text(https_handler)),
            r.accessibility_trusted,
            !r.accessibility_required,
    {
        let a = match &http_handler {
            Some(h) => crate::text::text_eq(h.as_str(), "LinkHelm.Url"),
            None => false,
        };
        let b = match &https_handler {
            Some(h) => crate::text::text_eq(h.as_str(), "LinkHelm.Url"),
            None => false,
        };
        SystemIntegrationStatus {
            http_handler,
            https_handler,
            is_default_browser: a && b,
            accessibility_trusted: true,
            accessibility_required: false,
        }
    }

    /// Windows has no Accessibility settings that the router needs.
    pub fn open_accessibility_settings(&self) -> (r: Result<(), PlatformError>)
        ensures
            r matches Err(PlatformError::Unsupported),
    {
        Err(PlatformError::Unsupported)
    }
}

} // verus!
