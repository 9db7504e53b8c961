//! Linux integration: XDG directories, where browsers are installed and
//! keep their data, which processes are supported browsers, what `xprop`
//! and `xdg-mime` report, the desktop entry that makes the router a URL
//! handler, and the default profile of `profiles.ini`.

use vstd::prelude::*;

use crate::ids::{BrowserId, ProfileId};
use crate::platform_api::PlatformError;
use crate::platform_macos::path_join;
use crate::platform_windows::{browser_ids, SystemIntegrationStatus};
use crate::text::{
    ascii_lower_seq, has_prefix, last_token_spec, parse_u32_spec, split_spec, string_texts,
    trim_spec,
};
use crate::web_url::opt_text;

verus! {

/// The desktop entry through which the router handles links.
pub const DESKTOP_FILE_NAME: &'static str = "link-helm.desktop";

/// The Linux platform, given `HOME`, `XDG_CONFIG_HOME`, `XDG_DATA_HOME`
/// and `PATH`.
#[derive(Debug, Clone)]
pub struct LinuxPlatformAdapter {
    home: Option<String>,
    config_home: Option<String>,
    data_home: Option<String>,
    path: Option<String>,
}

/// The names under which a supported browser's executable is looked for.
pub open spec fn executable_names(id: Seq<char>) -> Option<Seq<Seq<char>>> {
    if id == "com.google.Chrome"@ {
        Some(seq!["google-chrome"@, "google-chrome-stable"@])
    } else if id == "com.microsoft.edgemac"@ {
        Some(seq!["microsoft-edge"@, "microsoft-edge-stable"@])
    } else if id == "com.brave.Browser"@ {
        Some(seq!["brave-browser"@])
    } else if id == "org.mozilla.firefox"@ {
        Some(seq!["firefox"@])
    } else {
        None
    }
}

/// The browser that an executable's file name belongs to, its case
/// ignored.
pub open spec fn browser_for_executable(name: Seq<char>) -> Option<Seq<char>> {
    let n = ascii_lower_seq(name);
    if n == "google-chrome"@ || n == "google-chrome-stable"@ {
        Some("com.google.Chrome"@)
    } else if n == "microsoft-edge"@ || n == "microsoft-edge-stable"@ {
        Some("com.microsoft.edgemac"@)
    } else if n == "brave"@ || n == "brave-browser"@ {
        Some("com.brave.Browser"@)
    } else if n == "firefox"@ {
        Some("org.mozilla.firefox"@)
    } else {
        None
    }
}

/// The browser that a process's executable file name belongs to.
pub fn process_browser_id(executable_name: &str) -> (r: Option<BrowserId>)
    ensures
        match r {
            Some(b) => browser_for_executable(executable_name@) == Some(b@),
            None => browser_for_executable(executable_name@) is None,
        },
{
    let lower = crate::text::to_ascii_lower(executable_name);
    let n = lower.as_str();
    if crate::text::text_eq(n, "google-chrome") || crate::text::text_eq(n, "google-chrome-stable") {
        Some(BrowserId::new("com.google.Chrome"))
    } else if crate::text::text_eq(n, "microsoft-edge") || crate::text::text_eq(
        n,
        "microsoft-edge-stable",
    ) {
        Some(BrowserId::new("com.microsoft.edgemac"))
    } else if crate::text::text_eq(n, "brave") || crate::text::text_eq(n, "brave-browser") {
        Some(BrowserId::new("com.brave.Browser"))
    } else if crate::text::text_eq(n, "firefox") {
        Some(BrowserId::new("org.mozilla.firefox"))
    } else {
        None
    }
}

/// The supported browsers among the first `n` executable names, each once,
/// in order of first appearance.
pub open spec fn running_upto(names: Seq<Seq<char>>, n: int) -> Seq<Seq<char>>
    decreases n,
{
    if n <= 0 {
        Seq::empty()
    } else {
        let prev = running_upto(names, n - 1);
        match browser_for_executable(names[n - 1]) {
            Some(id) => if prev.contains(id) {
                prev
            } else {
                prev.push(id)
            },
            None => prev,
        }
    }
}

/// What the first `n` lines of `profiles.ini` leave: the profile found
/// so far, the current section's name and path, and whether it is marked
/// `Default=1`.
pub struct DefaultSearch {
    pub found: Option<Seq<char>>,
    pub name: Option<Seq<char>>,
    pub path: Option<Seq<char>>,
    pub is_default: bool,
}

/// One line of `profiles.ini`: a section header ends a section marked
/// default that has a path, which is then the answer; otherwise it starts
/// a new section. `Name=`, `Path=` and `Default=1` lines fill the section.
pub open spec fn default_step(st: DefaultSearch, raw: Seq<char>) -> DefaultSearch {
    if st.found is Some {
        st
    } else {
        let line = trim_spec(raw);
        if has_prefix(line, "["@) && st.is_default && st.path is Some {
            DefaultSearch { found: st.path, name: st.name, path: None, is_default: true }
        } else {
            let s0 = if has_prefix(line, "["@) {
                DefaultSearch { found: None, name: None, path: None, is_default: false }
            } else {
                st
            };
            let s1 = if has_prefix(line, "Name="@) {
                DefaultSearch { name: Some(line.skip(5)), ..s0 }
            } else {
                s0
            };
            let s2 = if has_prefix(line, "Path="@) {
                DefaultSearch { path: Some(line.skip(5)), ..s1 }
            } else {
                s1
            };
            if line == "Default=1"@ {
                DefaultSearch { is_default: true, ..s2 }
            } else {
                s2
            }
        }
    }
}

/// The search after the first `n` lines.
pub open spec fn default_search_upto(lines: Seq<Seq<char>>, n: int) -> DefaultSearch
    decreases n,
{
    if n <= 0 {
        DefaultSearch { found: None, name: None, path: None, is_default: false }
    } else {
        default_step(default_search_upto(lines, n - 1), lines[n - 1])
    }
}

/// The profile that `profiles.ini` names as default: the path of the
/// first section marked `Default=1` that a later section header closes;
/// failing that, the last section's path, else its name.
pub open spec fn linux_default_profile(content: Seq<char>) -> Option<Seq<char>> {
    profile_from_lines(split_spec(content, '\n'))
}

/// The profile that the lines of `profiles.ini` name as default (see
/// `linux_default_profile`).
pub open spec fn profile_from_lines(lines: Seq<Seq<char>>) -> Option<Seq<char>> {
    let st = default_search_upto(lines, lines.len() as int);
    match st.found {
        Some(p) => Some(p),
        None => match st.path {
            Some(p) => Some(p),
            None => st.name,
        },
    }
}

proof fn lemma_search_prefix(a: Seq<Seq<char>>, b: Seq<Seq<char>>, m: int)
    requires
        0 <= m <= a.len(),
        m <= b.len(),
        forall|i: int| 0 <= i < m ==> a[i] == b[i],
    ensures
        default_search_upto(a, m) == default_search_upto(b, m),
    decreases m,
{
    if m > 0 {
        lemma_search_prefix(a, b, m - 1);
    }
}

/// After any earlier lines that left the search undecided (they closed no
/// section marked `Default=1` that has a path, and none is open), a last
/// section with a `Name=` line and then a `Path=` line makes its path the
/// profile, not its name; a last section with a name and no path makes
/// its name the profile.
pub proof fn law_last_section_path_before_name(lines: Seq<Seq<char>>, header: Seq<char>, n: Seq<char>, p: Seq<char>)
    requires
        default_search_upto(lines, lines.len() as int).found is None,
        !(default_search_upto(lines, lines.len() as int).is_default && default_search_upto(
            lines,
            lines.len() as int,
        ).path is Some),
        trim_spec(header) == header,
        has_prefix(header, "["@),
        trim_spec("Name="@ + n) == "Name="@ + n,
        trim_spec("Path="@ + p) == "Path="@ + p,
    ensures
        profile_from_lines(lines + seq![header, "Name="@ + n, "Path="@ + p]) == Some(p),
        profile_from_lines(lines + seq![header, "Name="@ + n]) == Some(n),
{
    reveal_strlit("[");
    reveal_strlit("Name=");
    reveal_strlit("Path=");
    reveal_strlit("Default=1");
    let l = lines.len() as int;
    let ln = "Name="@ + n;
    let lp = "Path="@ + p;
    let three = lines + seq![header, ln, lp];
    let two = lines + seq![header, ln];
    lemma_search_prefix(lines, three, l);
    lemma_search_prefix(lines, two, l);
    assert(header.len() >= 1 && header[0] == '[') by {
        assert(header.subrange(0, 1)[0] == header[0]);
    }
    assert(!has_prefix(header, "Name="@)) by {
        if has_prefix(header, "Name="@) {
            assert(header.subrange(0, 5)[0] == header[0]);
        }
    }
    assert(!has_prefix(header, "Path="@)) by {
        if has_prefix(header, "Path="@) {
            assert(header.subrange(0, 5)[0] == header[0]);
        }
    }
    assert(header != "Default=1"@) by {
        if header == "Default=1"@ {
            assert(header[0] == 'D');
        }
    }
    assert(ln[0] == 'N');
    assert(!has_prefix(ln, "["@)) by {
        if has_prefix(ln, "["@) {
            assert(ln.subrange(0, 1)[0] == ln[0]);
        }
    }
    assert(ln.subrange(0, 5) =~= "Name="@);
    assert(ln.skip(5) =~= n);
    assert(!has_prefix(ln, "Path="@)) by {
        if has_prefix(ln, "Path="@) {
            assert(ln.subrange(0, 5)[0] == ln[0]);
        }
    }
    assert(ln != "Default=1"@) by {
        if ln == "Default=1"@ {
            assert(ln[0] == 'D');
        }
    }
    assert(lp[0] == 'P');
    assert(!has_prefix(lp, "["@)) by {
        if has_prefix(lp, "["@) {
            assert(lp.subrange(0, 1)[0] == lp[0]);
        }
    }
    assert(!has_prefix(lp, "Name="@)) by {
        if has_prefix(lp, "Name="@) {
            assert(lp.subrange(0, 5)[0] == lp[0]);
        }
    }
    assert(lp.subrange(0, 5) =~= "Path="@);
    assert(lp.skip(5) =~= p);
    assert(lp != "Default=1"@) by {
        if lp == "Default=1"@ {
            assert(lp[0] == 'D');
        }
    }
    assert(three[l] == header && three[l + 1] == ln && three[l + 2] == lp);
    assert(two[l] == header && two[l + 1] == ln);
    let s1 = default_search_upto(three, l + 1);
    assert(s1 == DefaultSearch { found: None, name: None, path: None, is_default: false });
    let s2 = default_search_upto(three, l + 2);
    assert(s2 == DefaultSearch { found: None, name: Some(n), path: None, is_default: false });
    let s3 = default_search_upto(three, l + 3);
    assert(s3 == DefaultSearch { found: None, name: Some(n), path: Some(p), is_default: false });
    assert(default_search_upto(two, l + 1) == s1);
    assert(default_search_upto(two, l + 2) == s2);
}

proof fn lemma_default_found_stays(lines: Seq<Seq<char>>, m: int, n: int)
    requires
        0 <= m <= n,
        default_search_upto(lines, m).found is Some,
    ensures
        default_search_upto(lines, n).found == default_search_upto(lines, m).found,
    decreases n - m,
{
    if m < n {
        lemma_default_found_stays(lines, m, n - 1);
    }
}

/// A section marked `Default=1` that has a path and that a later section
/// header closes names the profile, whatever follows: after earlier lines
/// that left the search undecided, a section made of a header, `Path=p`
/// and `Default=1`, then any other header and any further lines, names
/// `p`.
pub proof fn law_closed_default_section_wins(
    lines: Seq<Seq<char>>,
    header: Seq<char>,
    p: Seq<char>,
    next_header: Seq<char>,
    rest: Seq<Seq<char>>,
)
    requires
        default_search_upto(lines, lines.len() as int).found is None,
        !(default_search_upto(lines, lines.len() as int).is_default && default_search_upto(
            lines,
            lines.len() as int,
        ).path is Some),
        trim_spec(header) == header,
        has_prefix(header, "["@),
        trim_spec(next_header) == next_header,
        has_prefix(next_header, "["@),
        trim_spec("Path="@ + p) == "Path="@ + p,
    ensures
        profile_from_lines(lines + seq![header, "Path="@ + p, "Default=1"@, next_header] + rest) == Some(
            p,
        ),
{
    reveal_strlit("[");
    reveal_strlit("Name=");
    reveal_strlit("Path=");
    reveal_strlit("Default=1");
    let l = lines.len() as int;
    let lp = "Path="@ + p;
    let d = "Default=1"@;
    let full = lines + seq![header, lp, d, next_header] + rest;
    lemma_search_prefix(lines, full, l);
    assert(header[0] == '[') by {
        assert(header.subrange(0, 1)[0] == header[0]);
    }
    assert(!has_prefix(header, "Name="@)) by {
        if has_prefix(header, "Name="@) {
            assert(header.subrange(0, 5)[0] == header[0]);
        }
    }
    assert(!has_prefix(header, "Path="@)) by {
        if has_prefix(header, "Path="@) {
            assert(header.subrange(0, 5)[0] == header[0]);
        }
    }
    assert(header != d) by {
        if header == d {
            assert(header[0] == 'D');
        }
    }
    assert(lp[0] == 'P');
    assert(!has_prefix(lp, "["@)) by {
        if has_prefix(lp, "["@) {
            assert(lp.subrange(0, 1)[0] == lp[0]);
        }
    }
    assert(!has_prefix(lp, "Name="@)) by {
        if has_prefix(lp, "Name="@) {
            assert(lp.subrange(0, 5)[0] == lp[0]);
        }
    }
    assert(lp.subrange(0, 5) =~= "Path="@);
    assert(lp.skip(5) =~= p);
    assert(lp != d) by {
        if lp == d {
            assert(lp[0] == 'D');
        }
    }
    assert(trim_spec(d) == d) by {
        assert(!crate::text::is_space(d[0]));
        assert(!crate::text::is_space(d.last()));
        assert(crate::text::trim_start_spec(d) == d);
        assert(crate::text::trim_end_spec(d) == d);
    }
    assert(!has_prefix(d, "["@)) by {
        if has_prefix(d, "["@) {
            assert(d.subrange(0, 1)[0] == d[0]);
        }
    }
    assert(!has_prefix(d, "Name="@)) by {
        if has_prefix(d, "Name="@) {
            assert(d.subrange(0, 5)[0] == d[0]);
        }
    }
    assert(!has_prefix(d, "Path="@)) by {
        if has_prefix(d, "Path="@) {
            assert(d.subrange(0, 5)[0] == d[0]);
        }
    }
    assert(full[l] == header && full[l + 1] == lp && full[l + 2] == d && full[l + 3] == next_header);
    assert(default_search_upto(full, l + 1) == DefaultSearch { found: None, name: None, path: None, is_default: false });
    assert(default_search_upto(full, l + 2) == DefaultSearch { found: None, name: None, path: Some(p), is_default: false });
    assert(default_search_upto(full, l + 3) == DefaultSearch { found: None, name: None, path: Some(p), is_default: true });
    assert(default_search_upto(full, l + 4).found == Some(p));
    lemma_default_found_stays(full, l + 4, full.len() as int);
}

/// The profile that Firefox's `profiles.ini` names as default.
pub fn firefox_default_profile(profiles_ini: &str) -> (r: Option<String>)
    ensures
        opt_text(r) == linux_default_profile(profiles_ini@),
{
    let lines = crate::text::split_text(profiles_ini, '\n');
    let ghost ls = string_texts(lines@);
    let mut name: Option<String> = None;
    let mut path: Option<String> = None;
    let mut is_default = false;
    let mut i: usize = 0;
    while i < lines.len()
        invariant
            ls == string_texts(lines@),
            ls == split_spec(profiles_ini@, '\n'),
            i <= lines@.len(),
            default_search_upto(ls, i as int) == (DefaultSearch {
                found: None,
                name: opt_text(name),
                path: opt_text(path),
                is_default,
            }),
        decreases lines.len() - i,
    {
        assert(ls[i as int] == lines@[i as int]@);
        let line = crate::text::trim(lines[i].as_str());
        proof {
            reveal_strlit("[");
            reveal_strlit("Name=");
            reveal_strlit("Path=");
        }
        if crate::text::starts_with(line, "[") {
            if is_default {
                match &path {
                    Some(p) => {
                        proof {
                            lemma_default_found_stays(ls, i + 1, ls.len() as int);
                        }
                        return Some(p.clone());
                    },
                    None => {},
                }
            }
            name = None;
            path = None;
            is_default = false;
        }
        match crate::text::strip_prefix(line, "Name=") {
            Some(value) => {
                name = Some(value.to_owned());
            },
            None => {},
        }
        match crate::text::strip_prefix(line, "Path=") {
            Some(value) => {
                path = Some(value.to_owned());
            },
            None => {},
        }
        if crate::text::text_eq(line, "Default=1") {
            is_default = true;
        }
        i = i + 1;
    }
    match path {
        Some(p) => Some(p),
        None => name,
    }
}

/// The desktop entry that declares the router, run as `executable`, a
/// handler of web links and HTML files.
pub open spec fn desktop_entry_spec(executable: Seq<char>) -> Seq<char> {
    "[Desktop Entry]\nType=Application\nName=Link Helm\nExec=\""@ + executable
        + "\" %u\nTerminal=false\nNoDisplay=true\nMimeType=x-scheme-handler/http;x-scheme-handler/https;text/html;\n"@
}

/// The contents of the router's desktop entry.
pub fn desktop_entry(executable: &str) -> (r: String)
    ensures
        r@ == desktop_entry_spec(executable@),
{
    let mut s = String::from_str("[Desktop Entry]\nType=Application\nName=Link Helm\nExec=\"");
    s.append(executable);
    s.append(
        "\" %u\nTerminal=false\nNoDisplay=true\nMimeType=x-scheme-handler/http;x-scheme-handler/https;text/html;\n",
    );
    s
}

/// The handler that `xdg-mime query default` printed: its output trimmed,
/// where it is not empty.
pub fn xdg_mime_handler(output: &str) -> (r: Option<String>)
    ensures
        match r {
            Some(h) => h@ == trim_spec(output@) && h@.len() > 0,
            None => trim_spec(output@).len() == 0,
        },
{
    let value = crate::text::trim(output);
    if value.unicode_len() == 0 {
        None
    } else {
        Some(value.to_owned())
    }
}

/// The window that `xprop -root _NET_ACTIVE_WINDOW` names: the last word
/// of its output.
pub fn active_window_id(xprop_output: &str) -> (r: Option<String>)
    ensures
        opt_text(r) == last_token_spec(xprop_output@),
{
    match crate::text::last_token(xprop_output) {
        Some(w) => Some(w.to_owned()),
        None => None,
    }
}

/// The process that `xprop -id <window> _NET_WM_PID` names: the last word
/// of its output, read as a decimal `u32`.
pub fn window_pid(xprop_output: &str) -> (r: Option<u32>)
    ensures
        r == match last_token_spec(xprop_output@) {
            Some(w) => parse_u32_spec(w),
            None => None,
        },
{
    match crate::text::last_token(xprop_output) {
        Some(w) => crate::text::parse_u32(w),
        None => None,
    }
}

/// The outcome of running a program to completion: one that could not be
/// started, or that failed, is an error naming it (with its error output,
/// trimmed).
pub fn run_command_outcome(program: &str, started: Result<bool, String>, stderr: &str) -> (r: Result<(), PlatformError>)
    ensures
        match started {
            Err(e) => r matches Err(PlatformError::Failed(m)) && m@ == program@ + " failed to start: "@
                + e@,
            Ok(true) => r is Ok,
            Ok(false) => r matches Err(PlatformError::Failed(m)) && m@ == program@ + " failed: "@
                + trim_spec(stderr@),
        },
{
    match started {
        Err(e) => {
            let mut m = String::from_str(program);
            m.append(" failed to start: ");
            m.append(e.as_str());
            Err(PlatformError::Failed(m))
        },
        Ok(true) => Ok(()),
        Ok(false) => {
            let mut m = String::from_str(program);
            m.append(" failed: ");
            m.append(crate::text::trim(stderr));
            Err(PlatformError::Failed(m))
        },
    }
}

/// The programs that open the default-applications settings, in the order
/// they are tried, with their arguments.
pub open spec fn settings_programs() -> Seq<(Seq<char>, Seq<Seq<char>>)> {
    seq![
        ("gnome-control-center"@, seq!["default-apps"@]),
        ("systemsettings6"@, seq!["kcm_componentchooser"@]),
        ("systemsettings5"@, seq!["kcm_componentchooser"@]),
        ("systemsettings"@, seq!["kcm_componentchooser"@]),
        ("exo-preferred-applications"@, Seq::empty()),
        ("mate-default-applications-properties"@, Seq::empty()),
    ]
}

/// The program (and its arguments) that opens the default-applications
/// settings: the first of the known ones that is installed.
pub fn default_apps_settings_command(installed: &Vec<String>) -> (r: Option<(String, Vec<String>)>)
    ensures
        match r {
            Some((p, args)) => exists|i: int|
                0 <= i < settings_programs().len() && #[trigger] settings_programs()[i] == (
                    p@,
                    string_texts(args@),
                ) && string_texts(installed@).contains(p@) && forall|j: int|
                    0 <= j < i ==> !string_texts(installed@).contains(
                        #[trigger] settings_programs()[j].0,
                    ),
            None => forall|i: int|
                0 <= i < settings_programs().len() ==> !string_texts(installed@).contains(
                    #[trigger] settings_programs()[i].0,
                ),
        },
{
    let ghost ps = settings_programs();
    let programs: [&str; 6] = [
        "gnome-control-center",
        "systemsettings6",
        "systemsettings5",
        "systemsettings",
        "exo-preferred-applications",
        "mate-default-applications-properties",
    ];
    let mut i: usize = 0;
    while i < 6
        invariant
            ps == settings_programs(),
            i <= 6,
            programs@ == seq![
                "gnome-control-center",
                "systemsettings6",
                "systemsettings5",
                "systemsettings",
                "exo-preferred-applications",
                "mate-default-applications-properties",
            ],
            forall|j: int| 0 <= j < i ==> !string_texts(installed@).contains(#[trigger] ps[j].0),
        decreases 6 - i,
    {
        let program = programs[i];
        assert(program@ == ps[i as int].0);
        proof {
            crate::guard::lemma_text_set_contains(installed@, program@);
        }
        if crate::guard::text_list_holds(installed, program) {
            let mut args: Vec<String> = Vec::new();
            if i == 0 {
                args.push(String::from_str("default-apps"));
            } else if i <= 3 {
                args.push(String::from_str("kcm_componentchooser"));
            }
            assert(string_texts(args@) =~= ps[i as int].1);
            return Some((program.to_owned(), args));
        }
        i = i + 1;
    }
    None
}

/// Where a Chromium browser keeps its data, under the configuration
/// directory.
pub open spec fn chromium_config_dir(id: Seq<char>) -> Option<Seq<char>> {
    if id == "com.google.Chrome"@ {
        Some("google-chrome"@)
    } else if id == "com.microsoft.edgemac"@ {
        Some("microsoft-edge"@)
    } else if id == "com.brave.Browser"@ {
        Some("BraveSoftware/Brave-Browser"@)
    } else {
        None
    }
}

/// Whether both handlers are the router's desktop entry.
pub open spec fn is_desktop_default(http: Option<Seq<char>>, https: Option<Seq<char>>) -> bool {
    http == Some("link-helm.desktop"@) && https == Some("link-helm.desktop"@)
}

/// The first of the Snap, Flatpak and plain Firefox directories that holds
/// a `profiles.ini` among the files found, else the plain one.
pub open spec fn firefox_dir_choice(dirs: Seq<Seq<char>>, existing: Seq<Seq<char>>) -> Seq<char> {
    if existing.contains(path_join(dirs[0], "profiles.ini"@)) {
        dirs[0]
    } else if existing.contains(path_join(dirs[1], "profiles.ini"@)) {
        dirs[1]
    } else {
        dirs[2]
    }
}

/// The search path of executables: `PATH` split at `:`.
pub open spec fn search_dirs(path: Option<Seq<char>>) -> Seq<Seq<char>> {
    match path {
        Some(p) => split_spec(p, ':'),
        None => Seq::empty(),
    }
}

/// The paths where the programs `names` may be, name by name, each in
/// every directory of the search path in order.
pub open spec fn program_paths(dirs: Seq<Seq<char>>, names: Seq<Seq<char>>) -> Seq<Seq<char>>
    decreases names.len(),
{
    if names.len() == 0 {
        Seq::empty()
    } else {
        program_paths(dirs, names.drop_last()) + dirs.map_values(
            |d: Seq<char>| path_join(d, names.last()),
        )
    }
}

impl LinuxPlatformAdapter {
    /// The user's home directory (`HOME`).
    pub closed spec fn home_text(&self) -> Option<Seq<char>> {
        opt_text(self.home)
    }

    /// `XDG_CONFIG_HOME`
    pub closed spec fn config_home_text(&self) -> Option<Seq<char>> {
        opt_text(self.config_home)
    }

    /// `XDG_DATA_HOME`
    pub closed spec fn data_home_text(&self) -> Option<Seq<char>> {
        opt_text(self.data_home)
    }

    /// `PATH`
    pub closed spec fn path_text(&self) -> Option<Seq<char>> {
        opt_text(self.path)
    }

    /// The home directory: `HOME`, else the current directory.
    pub open spec fn home_spec(&self) -> Seq<char> {
        match self.home_text() {
            Some(h) => h,
            None => "."@,
        }
    }

    /// The configuration directory: `XDG_CONFIG_HOME`, else `~/.config`.
    pub open spec fn config_home_spec(&self) -> Seq<char> {
        match self.config_home_text() {
            Some(c) => c,
            None => path_join(self.home_spec(), ".config"@),
        }
    }

    /// The data directory: `XDG_DATA_HOME`, else `~/.local/share`.
    pub open spec fn data_home_spec(&self) -> Seq<char> {
        match self.data_home_text() {
            Some(d) => d,
            None => path_join(self.home_spec(), ".local/share"@),
        }
    }

    /// Where Firefox's data may be: the Snap, Flatpak and plain locations.
    pub open spec fn firefox_dirs(&self) -> Seq<Seq<char>> {
        seq![
            path_join(self.home_spec(), "snap/firefox/common/.mozilla/firefox"@),
            path_join(self.home_spec(), ".var/app/org.mozilla.firefox/.mozilla/firefox"@),
            path_join(self.home_spec(), ".mozilla/firefox"@),
        ]
    }

    /// Where a supported browser's executable may be, in the order tried.
    pub open spec fn executable_candidates(&self, id: Seq<char>) -> Seq<Seq<char>> {
        match executable_names(id) {
            Some(names) => program_paths(search_dirs(self.path_text()), names),
            None => Seq::empty(),
        }
    }

    /// The platform for the given `HOME`, `XDG_CONFIG_HOME`,
    /// `XDG_DATA_HOME` and `PATH`.
    pub fn new(home: Option<String>, config_home: Option<String>, data_home: Option<String>, path: Option<String>) -> (r: Self)
        ensures
            r.home_text() == opt_text(home),
            r.config_home_text() == opt_text(config_home),
            r.data_home_text() == opt_text(data_home),
            r.path_text() == opt_text(path),
    {
        LinuxPlatformAdapter { home, config_home, data_home, path }
    }

    /// The home directory.
    pub fn home_dir(&self) -> (r: String)
        ensures
            r@ == self.home_spec(),
    {
        match &self.home {
            Some(h) => h.clone(),
            None => String::from_str("."),
        }
    }

    /// The configuration directory.
    pub fn config_home(&self) -> (r: String)
        ensures
            r@ == self.config_home_spec(),
    {
        match &self.config_home {
            Some(c) => c.clone(),
            None => {
                let home = self.home_dir();
                crate::platform_macos::join_path(home.as_str(), ".config")
            },
        }
    }

    /// The data directory.
    pub fn data_home(&self) -> (r: String)
        ensures
            r@ == self.data_home_spec(),
    {
        match &self.data_home {
            Some(d) => d.clone(),
            None => {
                let home = self.home_dir();
                crate::platform_macos::join_path(home.as_str(), ".local/share")
            },
        }
    }

    /// Where a supported browser's executable may be: each of its names in
    /// each directory of `PATH`, in order.
    pub fn browser_executable_candidates(&self, browser_id: &BrowserId) -> (r: Vec<String>)
        ensures
            string_texts(r@) == self.executable_candidates(browser_id@),
    {
        let id = browser_id.as_str();
        let mut names: Vec<&str> = Vec::new();
        if crate::text::text_eq(id, "com.google.Chrome") {
            names.push("google-chrome");
            names.push("google-chrome-stable");
        } else if crate::text::text_eq(id, "com.microsoft.edgemac") {
            names.push("microsoft-edge");
            names.push("microsoft-edge-stable");
        } else if crate::text::text_eq(id, "com.brave.Browser") {
            names.push("brave-browser");
        } else if crate::text::text_eq(id, "org.mozilla.firefox") {
            names.push("firefox");
        } else {
            let r: Vec<String> = Vec::new();
            assert(string_texts(r@) =~= Seq::<Seq<char>>::empty());
            return r;
        }
        let ghost ns = names@.map_values(|n: &str| n@);
        assert(executable_names(id@) == Some(ns));
        let dirs = match &self.path {
            Some(p) => crate::text::split_text(p.as_str(), ':'),
            None => Vec::new(),
        };
        let ghost ds = string_texts(dirs@);
        assert(ds =~= search_dirs(self.path_text()));
        let mut out: Vec<String> = Vec::new();
        let mut k: usize = 0;
        assert(ns.subrange(0, 0) =~= Seq::<Seq<char>>::empty());
        assert(string_texts(out@) =~= program_paths(ds, ns.subrange(0, 0)));
        while k < names.len()
            invariant
                ns == names@.map_values(|n: &str| n@),
                ds == string_texts(dirs@),
                k <= names@.len(),
                string_texts(out@) == program_paths(ds, ns.subrange(0, k as int)),
            decreases names.len() - k,
        {
            let name = names[k];
            let ghost base = string_texts(out@);
            let mut d: usize = 0;
            while d < dirs.len()
                invariant
                    ds == string_texts(dirs@),
                    d <= dirs@.len(),
                    string_texts(out@) == base + ds.subrange(0, d as int).map_values(
                        |x: Seq<char>| path_join(x, name@),
                    ),
                decreases dirs.len() - d,
            {
                let ghost before = string_texts(out@);
                out.push(crate::platform_macos::join_path(dirs[d].as_str(), name));
                assert(ds.subrange(0, d + 1).map_values(|x: Seq<char>| path_join(x, name@))
                    =~= ds.subrange(0, d as int).map_values(|x: Seq<char>| path_join(x, name@)).push(
                    path_join(dirs@[d as int]@, name@),
                ));
                assert(string_texts(out@) =~= before.push(path_join(dirs@[d as int]@, name@)));
                d = d + 1;
            }
            assert(ds.subrange(0, dirs@.len() as int) =~= ds);
            assert(ns.subrange(0, k + 1).drop_last() =~= ns.subrange(0, k as int));
            assert(ns.subrange(0, k + 1).last() == name@);
            k = k + 1;
        }
        assert(ns.subrange(0, names@.len() as int) =~= ns);
        out
    }

    /// The executable of a supported browser: the first of its candidate
    /// paths that the platform found to be a file.
    pub fn browser_executable(&self, browser_id: &BrowserId, existing_files: &Vec<String>) -> (r: Option<String>)
        ensures
            match r {
                Some(p) => exists|i: int|
                    0 <= i < self.executable_candidates(browser_id@).len() && #[trigger] self.executable_candidates(
                        browser_id@,
                    )[i] == p@ && string_texts(existing_files@).contains(p@) && forall|j: int|
                        0 <= j < i ==> !string_texts(existing_files@).contains(
                            #[trigger] self.executable_candidates(browser_id@)[j],
                        ),
                None => forall|i: int|
                    0 <= i < self.executable_candidates(browser_id@).len() ==> !string_texts(
                        existing_files@,
                    ).contains(#[trigger] self.executable_candidates(browser_id@)[i]),
            },
    {
        let candidates = self.browser_executable_candidates(browser_id);
        let ghost cs = string_texts(candidates@);
        let mut i: usize = 0;
        while i < candidates.len()
            invariant
                cs == string_texts(candidates@),
                cs == self.executable_candidates(browser_id@),
                i <= candidates@.len(),
                forall|j: int| 0 <= j < i ==> !string_texts(existing_files@).contains(#[trigger] cs[j]),
            decreases candidates.len() - i,
        {
            let c = candidates[i].as_str();
            assert(cs[i as int] == c@);
            proof {
                crate::guard::lemma_text_set_contains(existing_files@, c@);
            }
            if crate::guard::text_list_holds(existing_files, c) {
                return Some(c.to_owned());
            }
            i = i + 1;
        }
        None
    }

    /// Where Firefox keeps its data: the first of the Snap, Flatpak and
    /// plain locations that holds a `profiles.ini` the platform found, else
    /// the plain one.
    pub fn firefox_data_dir(&self, existing_files: &Vec<String>) -> (r: String)
        ensures
            r@ == firefox_dir_choice(self.firefox_dirs(), string_texts(existing_files@)),
    {
        let home = self.home_dir();
        let snap = crate::platform_macos::join_path(home.as_str(), "snap/firefox/common/.mozilla/firefox");
        let flatpak = crate::platform_macos::join_path(
            home.as_str(),
            ".var/app/org.mozilla.firefox/.mozilla/firefox",
        );
        let plain = crate::platform_macos::join_path(home.as_str(), ".mozilla/firefox");
        let ghost dirs = self.firefox_dirs();
        let snap_ini = crate::platform_macos::join_path(snap.as_str(), "profiles.ini");
        proof {
            crate::guard::lemma_text_set_contains(existing_files@, snap_ini@);
        }
        if crate::guard::text_list_holds(existing_files, snap_ini.as_str()) {
            assert(dirs[0] == snap@);
            return snap;
        }
        let flatpak_ini = crate::platform_macos::join_path(flatpak.as_str(), "profiles.ini");
        proof {
            crate::guard::lemma_text_set_contains(existing_files@, flatpak_ini@);
        }
        if crate::guard::text_list_holds(existing_files, flatpak_ini.as_str()) {
            assert(dirs[1] == flatpak@);
            assert(dirs[0] == snap@);
            return flatpak;
        }
        assert(dirs[2] == plain@);
        assert(dirs[1] == flatpak@);
        assert(dirs[0] == snap@);
        plain
    }

    /// Where a supported browser keeps its data: Chrome, Edge and Brave
    /// under the configuration directory, Firefox where `firefox_data_dir`
    /// finds it.
    pub fn browser_data_dir(&self, browser_id: &BrowserId, existing_files: &Vec<String>) -> (r: Option<String>)
        ensures
            match chromium_config_dir(browser_id@) {
                Some(sub) => r matches Some(d) && d@ == path_join(self.config_home_spec(), sub),
                None => if browser_id@ == "org.mozilla.firefox"@ {
                    r matches Some(d) && d@ == firefox_dir_choice(
                        self.firefox_dirs(),
                        string_texts(existing_files@),
                    )
                } else {
                    r is None
                },
            },
    {
        let id = browser_id.as_str();
        if crate::text::text_eq(id, "com.google.Chrome") {
            let c = self.config_home();
            Some(crate::platform_macos::join_path(c.as_str(), "google-chrome"))
        } else if crate::text::text_eq(id, "com.microsoft.edgemac") {
            let c = self.config_home();
            Some(crate::platform_macos::join_path(c.as_str(), "microsoft-edge"))
        } else if crate::text::text_eq(id, "com.brave.Browser") {
            let c = self.config_home();
            Some(crate::platform_macos::join_path(c.as_str(), "BraveSoftware/Brave-Browser"))
        } else if crate::text::text_eq(id, "org.mozilla.firefox") {
            let d = self.firefox_data_dir(existing_files);
            Some(d)
        } else {
            None
        }
    }

    /// The supported browsers among the running processes' executable file
    /// names, each once, in order of first appearance.
    pub fn running_supported_browser_ids(&self, executable_names: &Vec<String>) -> (r: Vec<BrowserId>)
        ensures
            browser_ids(r@) == running_upto(
                string_texts(executable_names@),
                executable_names@.len() as int,
            ),
    {
        let ghost names = string_texts(executable_names@);
        let mut out: Vec<BrowserId> = Vec::new();
        let mut i: usize = 0;
        assert(browser_ids(out@) =~= Seq::<Seq<char>>::empty());
        while i < executable_names.len()
            invariant
                names == string_texts(executable_names@),
                i <= executable_names@.len(),
                browser_ids(out@) == running_upto(names, i as int),
            decreases executable_names.len() - i,
        {
            assert(names[i as int] == executable_names@[i as int]@);
            match process_browser_id(executable_names[i].as_str()) {
                Some(id) => {
                    let mut held = false;
                    let mut j: usize = 0;
                    while j < out.len()
                        invariant
                            j <= out@.len(),
                            held == exists|k: int| 0 <= k < j && (#[trigger] out@[k])@ == id@,
                        decreases out.len() - j,
                    {
                        if crate::text::text_eq(out[j].as_str(), id.as_str()) {
                            held = true;
                        }
                        j = j + 1;
                    }
                    assert(held == browser_ids(out@).contains(id@)) by {
                        if held {
                            let k = choose|k: int| 0 <= k < out@.len() && (#[trigger] out@[k])@ == id@;
                            assert(browser_ids(out@)[k] == id@);
                        }
                        if browser_ids(out@).contains(id@) {
                            let k = choose|k: int| 0 <= k < browser_ids(out@).len() && browser_ids(out@)[k] == id@;
                            assert(out@[k]@ == id@);
                        }
                    }
                    if !held {
                        let ghost before = browser_ids(out@);
                        out.push(id);
                        assert(browser_ids(out@) =~= before.push(id@));
                    }
                },
                None => {},
            }
            i = i + 1;
        }
        out
    }

    /// The profile used last: for Firefox, the default one of
    /// `profiles.ini`; for a Chromium browser, the `profile.last_used` of
    /// `Local State`. A file that could not be read gives none.
    pub fn last_used_profile_id(&self, browser_id: &BrowserId, profiles_ini: Option<&str>, local_state: Option<&[u8]>) -> (r: Option<ProfileId>)
        ensures
            browser_id@ == "org.mozilla.firefox"@ ==> match profiles_ini {
                Some(c) => match linux_default_profile(c@) {
                    Some(p) => r matches Some(x) && x@ == p,
                    None => r is None,
                },
                None => r is None,
            },
            browser_id@ != "org.mozilla.firefox"@ ==> match local_state {
                Some(b) => match crate::local_state::json_text_at(b@, "/profile/last_used"@) {
                    Some(p) => r matches Some(x) && x@ == p,
                    None => r is None,
                },
                None => r is None,
            },
    {
        if crate::text::text_eq(browser_id.as_str(), "org.mozilla.firefox") {
            match profiles_ini {
                Some(c) => match firefox_default_profile(c) {
                    Some(p) => Some(ProfileId::from_string(p)),
                    None => None,
                },
                None => None,
            }
        } else {
            match local_state {
                Some(b) => match crate::local_state::last_used_text(b) {
                    Some(p) => Some(ProfileId::from_string(p)),
                    None => None,
                },
                None => None,
            }
        }
    }

    /// The profiles of a running browser that have open windows: Linux
    /// cannot tell them apart, so this is the profile used last, where
    /// there is one.
    pub fn active_profile_ids(&self, browser_id: &BrowserId, profiles_ini: Option<&str>, local_state: Option<&[u8]>) -> (r: Vec<ProfileId>)
        ensures
            r@.len() <= 1,
            browser_id@ == "org.mozilla.firefox"@ ==> match profiles_ini {
                Some(c) => match linux_default_profile(c@) {
                    Some(p) => r@.len() == 1 && r@[0]@ == p,
                    None => r@.len() == 0,
                },
                None => r@.len() == 0,
            },
            browser_id@ != "org.mozilla.firefox"@ ==> match local_state {
                Some(b) => match crate::local_state::json_text_at(b@, "/profile/last_used"@) {
                    Some(p) => r@.len() == 1 && r@[0]@ == p,
                    None => r@.len() == 0,
                },
                None => r@.len() == 0,
            },
    {
        let mut out: Vec<ProfileId> = Vec::new();
        match self.last_used_profile_id(browser_id, profiles_ini, local_state) {
            Some(p) => out.push(p),
            None => {},
        }
        out
    }

    /// The browser in front, told by the file name of the executable of
    /// the process that owns the active window: its identifier where it is
    /// a supported browser.
    pub fn frontmost_application_bundle_id(&self, executable_name: Option<&str>) -> (r: Option<String>)
        ensures
            match executable_name {
                Some(e) => crate::web_url::opt_text(r) == browser_for_executable(e@),
                None => r is None,
            },
    {
        match executable_name {
            Some(e) => match process_browser_id(e) {
                Some(b) => Some(b.as_str().to_owned()),
                None => None,
            },
            None => None,
        }
    }

    /// The integration status, from the handlers of `http` and `https`:
    /// the router is the default browser where both are its desktop entry.
    /// Linux asks no Accessibility permission.
    pub fn system_status(&self, http_handler: Option<String>, https_handler: Option<String>) -> (r: SystemIntegrationStatus)
        ensures
            opt_text(r.http_handler) == opt_text(http_handler),
            opt_text(r.https_handler) == opt_text(https_handler),
            r.is_default_browser == is_desktop_default(opt_text(http_handler), opt_text(https_handler)),
            r.accessibility_trusted,
            !r.accessibility_required,
    {
        let a = match &http_handler {
            Some(h) => crate::text::text_eq(h.as_str(), "link-helm.desktop"),
            None => false,
        };
        let b = match &https_handler {
            Some(h) => crate::text::text_eq(h.as_str(), "link-helm.desktop"),
            None => false,
        };
        SystemIntegrationStatus {
            http_handler,
            https_handler,
            is_default_browser: a && b,
            accessibility_trusted: true,
            accessibility_required: false,
        }
    }

    /// Linux has no Accessibility settings that the router needs.
    pub fn open_accessibility_settings(&self) -> (r: Result<(), PlatformError>)
        ensures
            r matches Err(PlatformError::Unsupported),
    {
        Err(PlatformError::Unsupported)
    }

    /// Linux offers no application chooser.
    pub fn choose_source_application(&self) -> (r: Result<Option<String>, PlatformError>)
        ensures
            r matches Err(PlatformError::Unsupported),
    {
        Err(PlatformError::Unsupported)
    }
}

} // verus!
