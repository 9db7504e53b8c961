use link_helm::browser::OpenDisposition;
use link_helm::ids::BrowserId;
use link_helm::local_state::{
    parse_active_profile_ids, parse_last_used_profile_id, read_profile_display_names,
};
use link_helm::platform_api::PlatformError;
use link_helm::platform_linux::{
    run_command_outcome,
    active_window_id, default_apps_settings_command, desktop_entry, process_browser_id,
    window_pid, xdg_mime_handler, LinuxPlatformAdapter,
};
use link_helm::platform_macos::{
    active_window_command, after_confirm, after_request, after_verify, automation_outcome,
    RegistrationAction,
    browser_launch_strategy, default_browser_settings_url, encode_singleton_message,
    is_default_handler, join_path, parse_application_chooser_output, register_default_handlers,
    singleton_reply, singleton_verdict, uses_chromium_singleton, BrowserLaunchStrategy, HandlerRegistry,
    RegistryExchange, SingletonLink,
    MacOsPlatformAdapter,
};
use link_helm::platform_windows::{
    shell_open_outcome,
    browser_id_for_process, join_windows_path, parse_windows_chooser_output,
    url_handler_registry_values, WindowsPlatformAdapter,
};

struct FakeRegistry<S, G>
where
    S: FnMut(&str, &str) -> Result<(), String>,
    G: FnMut(&str) -> Option<String>,
{
    set: S,
    get: G,
}

impl<S, G> HandlerRegistry for FakeRegistry<S, G>
where
    S: FnMut(&str, &str) -> Result<(), String>,
    G: FnMut(&str) -> Option<String>,
{
    fn set_handler(&mut self, scheme: &str, bundle_id: &str) -> Result<(), String> {
        (self.set)(scheme, bundle_id)
    }

    fn get_handler(&mut self, scheme: &str) -> Option<String> {
        (self.get)(scheme)
    }
}

#[test]
fn direct_registration_sets_and_verifies_both_web_schemes() {
    let mut registrations = Vec::new();
    {
        let mut registry = FakeRegistry {
            set: |scheme: &str, bundle_id: &str| {
                registrations.push((scheme.to_string(), bundle_id.to_string()));
                Ok(())
            },
            get: |_: &str| Some("com.example.linkhelm".to_string()),
        };
        register_default_handlers("com.example.linkhelm", &mut registry).result.unwrap();
    }
    assert_eq!(
        registrations,
        vec![
            ("http".to_string(), "com.example.linkhelm".to_string()),
            ("https".to_string(), "com.example.linkhelm".to_string())
        ]
    );
}

#[test]
fn direct_registration_rejects_unverified_handler_state() {
    let mut registry = FakeRegistry {
        set: |_: &str, _: &str| Ok(()),
        get: |scheme: &str| {
            (scheme == "http")
                .then(|| "com.example.linkhelm".to_string())
                .or_else(|| Some("com.google.Chrome".to_string()))
        },
    };
    let error = register_default_handlers("com.example.linkhelm", &mut registry).result.unwrap_err();
    assert!(error.contains("https"));
    assert!(error.contains("com.google.Chrome"));
}

#[test]
fn direct_registration_identifies_the_scheme_that_failed() {
    let mut registry = FakeRegistry {
        set: |scheme: &str, _: &str| {
            if scheme == "https" {
                Err("permission denied".to_string())
            } else {
                Ok(())
            }
        },
        get: |_: &str| Some("com.google.Chrome".to_string()),
    };
    let registration = register_default_handlers("com.example.linkhelm", &mut registry);
    assert_eq!(registration.result.unwrap_err(), "cannot register https handler: permission denied".to_string());
    assert_eq!(
        registration.exchanges,
        vec![
            RegistryExchange::Request("http".to_string(), "com.example.linkhelm".to_string(), Ok(())),
            RegistryExchange::Request(
                "https".to_string(),
                "com.example.linkhelm".to_string(),
                Err("permission denied".to_string())
            ),
            RegistryExchange::Read("https".to_string(), Some("com.google.Chrome".to_string())),
        ]
    );
}

#[test]
fn a_refused_request_is_forgiven_when_the_handler_is_set_anyway() {
    let mut registry = FakeRegistry {
        set: |_: &str, _: &str| Err("already pending".to_string()),
        get: |_: &str| Some("com.example.linkhelm".to_string()),
    };
    let registration = register_default_handlers("com.example.linkhelm", &mut registry);
    assert!(registration.result.is_ok());
    assert_eq!(registration.exchanges.len(), 6);
    assert_eq!(
        registration.exchanges[4..],
        [
            RegistryExchange::Read("http".to_string(), Some("com.example.linkhelm".to_string())),
            RegistryExchange::Read("https".to_string(), Some("com.example.linkhelm".to_string())),
        ]
    );
}

#[test]
fn requires_both_web_schemes_to_be_registered() {
    assert!(is_default_handler(Some("com.example.linkhelm"), Some("com.example.linkhelm"), "com.example.linkhelm"));
    assert!(!is_default_handler(Some("com.example.linkhelm"), Some("com.google.Chrome"), "com.example.linkhelm"));
}

#[test]
fn default_browser_action_opens_the_desktop_settings_pane() {
    assert_eq!(default_browser_settings_url(), "x-apple.systempreferences:com.apple.Desktop-Settings.extension");
}

#[test]
fn singleton_protocol_is_limited_to_chromium_browsers() {
    assert!(uses_chromium_singleton(&BrowserId::new("com.google.Chrome")));
    assert!(uses_chromium_singleton(&BrowserId::new("com.microsoft.edgemac")));
    assert!(uses_chromium_singleton(&BrowserId::new("com.brave.Browser")));
    assert!(!uses_chromium_singleton(&BrowserId::new("org.mozilla.firefox")));
}

#[test]
fn chromium_singleton_message_preserves_profile_and_url_arguments() {
    let message = encode_singleton_message(
        "/tmp/lynko",
        "/Applications/Google Chrome.app/Contents/MacOS/Google Chrome",
        &vec!["--profile-directory=Default".to_string(), "https://example.com/path".to_string()],
    );
    assert_eq!(
        message,
        b"START\0/tmp/lynko\0/Applications/Google Chrome.app/Contents/MacOS/Google Chrome\0--profile-directory=Default\0https://example.com/path"
    );
}

#[test]
fn singleton_replies_are_read() {
    assert_eq!(singleton_reply(b"ACK"), Ok(true));
    assert_eq!(singleton_reply(b"SHUTDOWN"), Ok(false));
    assert_eq!(singleton_reply(b"NOPE"), Err("unexpected Chrome singleton response: NOPE".to_string()));
}

#[test]
fn maps_supported_browser_ids_to_application_support_directories() {
    let platform = MacOsPlatformAdapter::new(Some("/Users/tester".to_string()));
    let chrome = platform.browser_data_dir(&BrowserId::new("com.google.Chrome")).expect("Chrome data directory");
    assert!(chrome.ends_with("Library/Application Support/Google/Chrome"));
    let firefox = platform.browser_data_dir(&BrowserId::new("org.mozilla.firefox")).expect("Firefox data directory");
    assert!(firefox.ends_with("Library/Application Support/Firefox"));
    assert!(platform.browser_data_dir(&BrowserId::new("com.example.unknown")).is_none());
    assert_eq!(chrome, "/Users/tester/Library/Application Support/Google/Chrome");
}

#[test]
fn resolves_known_browser_executables_without_shell_commands() {
    let platform = MacOsPlatformAdapter::new(Some("/Users/tester".to_string()));
    assert_eq!(
        platform.browser_executable(&BrowserId::new("com.google.Chrome")).unwrap(),
        "/Applications/Google Chrome.app/Contents/MacOS/Google Chrome".to_string()
    );
    assert!(platform.browser_executable(&BrowserId::new("com.example.unknown")).is_none());
}

#[test]
fn specified_profile_uses_direct_profile_routing() {
    assert_eq!(browser_launch_strategy(OpenDisposition::ExistingWindow), BrowserLaunchStrategy::DirectExecutable);
}

#[test]
fn active_window_uses_existing_browser_automation() {
    assert_eq!(browser_launch_strategy(OpenDisposition::ActiveWindow), BrowserLaunchStrategy::ActiveWindowAutomation);
}

#[test]
fn explicit_new_window_uses_browser_arguments() {
    assert_eq!(browser_launch_strategy(OpenDisposition::NewWindow), BrowserLaunchStrategy::DirectExecutable);
}

#[test]
fn chooser_output_returns_a_trimmed_bundle_id() {
    let result = parse_application_chooser_output(true, "com.alibaba.DingTalkMac\n", "").unwrap();
    assert_eq!(result.as_deref(), Some("com.alibaba.DingTalkMac"));
}

#[test]
fn chooser_cancellation_returns_no_selection() {
    let result = parse_application_chooser_output(false, "", "execution error: User canceled. (-128)\n").unwrap();
    assert_eq!(result, None);
}

#[test]
fn chooser_failures_and_empty_answers_are_errors() {
    assert_eq!(
        parse_application_chooser_output(false, "", "boom\n"),
        Err(PlatformError::Failed("application chooser failed: boom".to_string()))
    );
    assert!(parse_application_chooser_output(true, "  \n", "").is_err());
}

#[test]
fn macos_settings_failures_are_explained() {
    let platform = MacOsPlatformAdapter::new(None);
    assert_eq!(
        platform.open_default_browser_settings(Err("no open".to_string())),
        Err(PlatformError::Failed("cannot open default browser settings: no open".to_string()))
    );
    assert!(platform.open_accessibility_settings(Ok(())).is_ok());
    assert!(platform.browser_data_dir(&BrowserId::new("com.google.Chrome")).is_none());
}

#[test]
fn macos_status_reports_the_default_browser() {
    let platform = MacOsPlatformAdapter::new(None);
    let status = platform.system_status(
        "com.example.linkhelm",
        Some("com.example.linkhelm".to_string()),
        Some("com.google.Chrome".to_string()),
        true,
    );
    assert!(!status.is_default_browser);
    assert!(status.accessibility_trusted);
}

#[test]
fn paths_join_with_one_separator() {
    assert_eq!(join_path("/Users/a", "Library"), "/Users/a/Library");
    assert_eq!(join_path("/Users/a/", "Library"), "/Users/a/Library");
    assert_eq!(join_path("", "Library"), "Library");
}

#[test]
fn parses_stable_last_used_chromium_profile_id() {
    let json = br#"{"profile":{"last_used":"Profile 6"}}"#;
    assert_eq!(parse_last_used_profile_id(json).as_deref(), Some("Profile 6"));
    assert_eq!(parse_last_used_profile_id(b"{}"), None);
}

#[test]
fn blank_last_used_profile_is_ignored() {
    assert_eq!(parse_last_used_profile_id(br#"{"profile":{"last_used":"  "}}"#), None);
    assert_eq!(parse_last_used_profile_id(b"not json"), None);
}

#[test]
fn parses_all_profiles_with_open_chromium_windows() {
    let json = br#"{"profile":{"last_active_profiles":["Default","Profile 6","Default"]}}"#;
    assert_eq!(parse_active_profile_ids(json), vec!["Default".to_string(), "Profile 6".to_string()]);
}

#[test]
fn active_profiles_skip_blank_and_non_string_entries() {
    let json = br#"{"profile":{"last_active_profiles":[" ",7,"Profile 1"]}}"#;
    assert_eq!(parse_active_profile_ids(json), vec!["Profile 1".to_string()]);
    assert!(parse_active_profile_ids(b"[]").is_empty());
}

#[test]
fn local_state_display_names_keep_named_profiles() {
    let json = br#"{"profile":{"info_cache":{"Default":{"name":"Me"},"Profile 1":{"name":""},"Profile 2":{}}}}"#;
    let names = read_profile_display_names(Some(json));
    assert_eq!(names, vec![("Default".to_string(), "Me".to_string())]);
    assert!(read_profile_display_names(None).is_empty());
}

fn windows() -> WindowsPlatformAdapter {
    WindowsPlatformAdapter::new(
        Some("C:\\Users\\me\\AppData\\Local".to_string()),
        Some("C:\\Users\\me\\AppData\\Roaming".to_string()),
        Some("C:\\Program Files".to_string()),
        None,
    )
}

#[test]
fn windows_candidates_follow_each_browsers_install_order() {
    let platform = windows();
    assert_eq!(
        platform.browser_executable_candidates(&BrowserId::new("com.microsoft.edgemac")),
        vec![
            "C:\\Program Files\\Microsoft/Edge/Application/msedge.exe".to_string(),
            "C:\\Users\\me\\AppData\\Local\\Microsoft/Edge/Application/msedge.exe".to_string(),
        ]
    );
    assert!(platform.browser_executable_candidates(&BrowserId::new("com.example.unknown")).is_empty());
    let found = platform.browser_executable(
        &BrowserId::new("com.google.Chrome"),
        &vec!["C:\\Program Files\\Google/Chrome/Application/chrome.exe".to_string()],
    );
    assert_eq!(found.as_deref(), Some("C:\\Program Files\\Google/Chrome/Application/chrome.exe"));
}

#[test]
fn windows_data_directories_live_under_app_data() {
    let platform = windows();
    assert_eq!(
        platform.browser_data_dir(&BrowserId::new("org.mozilla.firefox")).as_deref(),
        Some("C:\\Users\\me\\AppData\\Roaming\\Mozilla/Firefox")
    );
    assert_eq!(join_windows_path("C:", "x"), "C:x");
    assert_eq!(join_windows_path("C:\\", "x"), "C:\\x");
}

#[test]
fn windows_running_browsers_are_reported_once() {
    let names: Vec<String> = ["explorer.exe", "chrome.exe", "firefox.exe", "chrome.exe"].iter().map(|s| s.to_string()).collect();
    let ids: Vec<String> = windows().running_supported_browser_ids(&names).iter().map(|b| b.as_str().to_string()).collect();
    assert_eq!(ids, vec!["com.google.Chrome".to_string(), "org.mozilla.firefox".to_string()]);
    assert!(browser_id_for_process("msedge.exe").is_some());
    assert!(browser_id_for_process("MSEDGE.EXE").is_none());
}

#[test]
fn windows_status_needs_both_schemes() {
    let status = windows().system_status(Some("LinkHelm.Url".to_string()), Some("LinkHelm.Url".to_string()));
    assert!(status.is_default_browser);
    assert!(status.accessibility_trusted);
    assert!(!status.accessibility_required);
    assert!(!windows().system_status(Some("LinkHelm.Url".to_string()), None).is_default_browser);
    assert_eq!(windows().open_accessibility_settings(), Err(PlatformError::Unsupported));
}

#[test]
fn windows_firefox_default_profile_comes_from_installs_ini() {
    let ini = "[308046B0AF4A39CB]\nDefault=  \nDefault=Profiles/abc.default-release\nLocked=1\n";
    assert_eq!(
        link_helm::platform_windows::firefox_default_profile(ini).as_deref(),
        Some("Profiles/abc.default-release")
    );
    assert_eq!(link_helm::platform_windows::firefox_default_profile("[x]\n"), None);
}

#[test]
fn windows_registration_writes_the_url_class_and_capabilities() {
    let values = url_handler_registry_values("C:\\Apps\\link-helm.exe");
    assert_eq!(values.len(), 10);
    assert_eq!(values[3].key, "Software\\Classes\\LinkHelm.Url\\shell\\open\\command");
    assert_eq!(values[3].value, "\"C:\\Apps\\link-helm.exe\" \"%1\"");
    assert_eq!(values[2].value, "\"C:\\Apps\\link-helm.exe\",0");
    assert_eq!(values[9].name, "Link Helm");
    assert_eq!(values[9].value, "Software\\LinkHelm\\Capabilities");
}

#[test]
fn windows_chooser_answers() {
    assert_eq!(parse_windows_chooser_output(true, "mail.exe\r\n", ""), Ok(Some("mail.exe".to_string())));
    assert_eq!(parse_windows_chooser_output(true, "", ""), Ok(None));
    assert_eq!(
        parse_windows_chooser_output(false, "", " denied "),
        Err(PlatformError::Failed("application chooser failed: denied".to_string()))
    );
}

fn linux() -> LinuxPlatformAdapter {
    LinuxPlatformAdapter::new(Some("/home/me".to_string()), None, None, Some("/usr/bin:/opt/bin".to_string()))
}

#[test]
fn linux_directories_follow_xdg() {
    let platform = linux();
    assert_eq!(platform.config_home(), "/home/me/.config");
    assert_eq!(platform.data_home(), "/home/me/.local/share");
    assert_eq!(
        platform.browser_data_dir(&BrowserId::new("com.brave.Browser"), &Vec::new()).as_deref(),
        Some("/home/me/.config/BraveSoftware/Brave-Browser")
    );
    let snap = vec!["/home/me/snap/firefox/common/.mozilla/firefox/profiles.ini".to_string()];
    assert_eq!(platform.firefox_data_dir(&snap), "/home/me/snap/firefox/common/.mozilla/firefox");
    assert_eq!(platform.firefox_data_dir(&Vec::new()), "/home/me/.mozilla/firefox");
    let no_home = LinuxPlatformAdapter::new(None, Some("/cfg".to_string()), None, None);
    assert_eq!(no_home.config_home(), "/cfg");
    assert_eq!(no_home.home_dir(), ".");
}

#[test]
fn linux_executables_are_searched_name_by_name_on_the_path() {
    let platform = linux();
    assert_eq!(
        platform.browser_executable_candidates(&BrowserId::new("com.google.Chrome")),
        vec![
            "/usr/bin/google-chrome".to_string(),
            "/opt/bin/google-chrome".to_string(),
            "/usr/bin/google-chrome-stable".to_string(),
            "/opt/bin/google-chrome-stable".to_string(),
        ]
    );
    let found = platform.browser_executable(&BrowserId::new("com.google.Chrome"), &vec!["/opt/bin/google-chrome-stable".to_string()]);
    assert_eq!(found.as_deref(), Some("/opt/bin/google-chrome-stable"));
}

#[test]
fn linux_processes_map_to_browsers() {
    assert_eq!(process_browser_id("Google-Chrome-Stable").unwrap().as_str(), "com.google.Chrome");
    assert_eq!(process_browser_id("brave").unwrap().as_str(), "com.brave.Browser");
    assert!(process_browser_id("bash").is_none());
    let names: Vec<String> = ["firefox", "bash", "firefox"].iter().map(|s| s.to_string()).collect();
    assert_eq!(linux().running_supported_browser_ids(&names).len(), 1);
}

#[test]
fn xprop_output_gives_the_window_and_its_process() {
    assert_eq!(active_window_id("_NET_ACTIVE_WINDOW(WINDOW): window id # 0x3a00007\n").as_deref(), Some("0x3a00007"));
    assert_eq!(window_pid("_NET_WM_PID(CARDINAL) = 4242\n"), Some(4242));
    assert_eq!(window_pid("_NET_WM_PID:  not found.\n"), None);
    assert_eq!(window_pid(""), None);
}

#[test]
fn linux_firefox_default_profile_follows_profiles_ini() {
    let ini = "[Profile1]\nName=work\nPath=w.work\n\n[Profile0]\nName=default\nPath=d.default\nDefault=1\n\n[General]\nStartWithLastProfile=1\n";
    assert_eq!(link_helm::platform_linux::firefox_default_profile(ini).as_deref(), Some("d.default"));
    assert_eq!(link_helm::platform_linux::firefox_default_profile("[Profile0]\nName=only\n").as_deref(), Some("only"));
    assert_eq!(link_helm::platform_linux::firefox_default_profile(""), None);
}

#[test]
fn linux_desktop_entry_and_handlers() {
    let entry = desktop_entry("/opt/link-helm");
    assert!(entry.starts_with("[Desktop Entry]\nType=Application\nName=Link Helm\nExec=\"/opt/link-helm\" %u\n"));
    assert!(entry.ends_with("MimeType=x-scheme-handler/http;x-scheme-handler/https;text/html;\n"));
    assert_eq!(xdg_mime_handler(" link-helm.desktop\n").as_deref(), Some("link-helm.desktop"));
    assert_eq!(xdg_mime_handler("\n"), None);
    let status = linux().system_status(Some("link-helm.desktop".to_string()), Some("link-helm.desktop".to_string()));
    assert!(status.is_default_browser);
    assert_eq!(linux().choose_source_application(), Err(PlatformError::Unsupported));
}

#[test]
fn linux_settings_program_is_the_first_installed() {
    let installed = vec!["systemsettings5".to_string(), "exo-preferred-applications".to_string()];
    let (program, args) = default_apps_settings_command(&installed).unwrap();
    assert_eq!(program, "systemsettings5");
    assert_eq!(args, vec!["kcm_componentchooser".to_string()]);
    assert!(default_apps_settings_command(&Vec::new()).is_none());
}

#[test]
fn linux_last_used_profile_reads_the_right_file() {
    let platform = linux();
    let firefox = platform.last_used_profile_id(&BrowserId::new("org.mozilla.firefox"), Some("[Profile0]\nPath=p0\n"), None);
    assert_eq!(firefox.unwrap().as_str(), "p0");
    let chrome = platform.last_used_profile_id(
        &BrowserId::new("com.google.Chrome"),
        None,
        Some(br#"{"profile":{"last_used":"Profile 2"}}"#),
    );
    assert_eq!(chrome.unwrap().as_str(), "Profile 2");
}

#[test]
fn linux_active_profiles_are_the_last_used_one() {
    let platform = linux();
    let chrome = BrowserId::new("com.google.Chrome");
    let active = platform.active_profile_ids(&chrome, None, Some(br#"{"profile":{"last_used":"Profile 2"}}"#));
    assert_eq!(active.len(), 1);
    assert_eq!(active[0].as_str(), "Profile 2");
    assert!(platform.active_profile_ids(&chrome, None, Some(b"{}")).is_empty());
    assert!(platform.active_profile_ids(&chrome, None, None).is_empty());
    let firefox = platform.active_profile_ids(&BrowserId::new("org.mozilla.firefox"), Some("[Profile0]\nPath=p0\n"), None);
    assert_eq!(firefox.len(), 1);
    assert_eq!(firefox[0].as_str(), "p0");
}

#[test]
fn linux_frontmost_browser_comes_from_the_executable_name() {
    let platform = linux();
    assert_eq!(platform.frontmost_application_bundle_id(Some("google-chrome-stable")).as_deref(), Some("com.google.Chrome"));
    assert_eq!(platform.frontmost_application_bundle_id(Some("Firefox")).as_deref(), Some("org.mozilla.firefox"));
    assert_eq!(platform.frontmost_application_bundle_id(Some("gedit")), None);
    assert_eq!(platform.frontmost_application_bundle_id(None), None);
}

#[test]
fn registration_steps_request_then_verify_both_schemes() {
    assert!(matches!(after_request(false, Ok(())), RegistrationAction::Request(true)));
    assert!(matches!(after_request(true, Ok(())), RegistrationAction::Verify(false)));
    assert!(matches!(after_request(true, Err("no".to_string())), RegistrationAction::Confirm(true, ref e) if e == "no"));
    match after_confirm("com.example.linkhelm", true, "no", None) {
        RegistrationAction::Done(Err(m)) => assert_eq!(m, "cannot register https handler: no"),
        _ => panic!("a refused request with another handler fails"),
    }
    assert!(matches!(
        after_confirm("com.example.linkhelm", false, "no", Some("com.example.linkhelm".to_string())),
        RegistrationAction::Request(true)
    ));
    assert!(matches!(after_verify("b", false, Some("b".to_string())), RegistrationAction::Verify(true)));
    assert!(matches!(after_verify("b", true, Some("b".to_string())), RegistrationAction::Done(Ok(()))));
    match after_verify("b", false, None) {
        RegistrationAction::Done(Err(m)) => assert_eq!(m, "http handler verification failed: expected b, found none"),
        _ => panic!("a missing handler fails"),
    }
}

#[test]
fn active_window_links_go_through_automation_or_open() {
    let (program, args) = active_window_command(&BrowserId::new("com.brave.Browser"), "https://example.com/");
    assert_eq!(program, "/usr/bin/open");
    assert_eq!(args, vec!["-b", "com.brave.Browser", "https://example.com/"]);
    let (program, args) = active_window_command(&BrowserId::new("com.google.Chrome"), "https://example.com/");
    assert_eq!(program, "/usr/bin/osascript");
    assert_eq!(args[0], "-e");
    assert!(args[1].contains("tell application \"Google Chrome\""));
    assert_eq!(args[2], "https://example.com/");
    assert_eq!(
        automation_outcome(false, " not allowed\n"),
        Err(PlatformError::Failed("Chrome automation failed: not allowed".to_string()))
    );
}

#[test]
fn shell_execute_results_above_32_succeed() {
    assert!(shell_open_outcome("cannot open Windows Default Apps settings", 42).is_ok());
    assert_eq!(
        shell_open_outcome("cannot open Windows Default Apps settings", 2),
        Err(PlatformError::Failed("cannot open Windows Default Apps settings: ShellExecuteW returned 2".to_string()))
    );
    assert_eq!(
        shell_open_outcome("ctx", -5),
        Err(PlatformError::Failed("ctx: ShellExecuteW returned -5".to_string()))
    );
}

#[test]
fn commands_that_fail_are_named_with_their_error_output() {
    assert!(run_command_outcome("xdg-mime", Ok(true), "").is_ok());
    assert_eq!(
        run_command_outcome("xdg-mime", Ok(false), " bad mime\n"),
        Err(PlatformError::Failed("xdg-mime failed: bad mime".to_string()))
    );
    assert_eq!(
        run_command_outcome("xdg-mime", Err("not found".to_string()), ""),
        Err(PlatformError::Failed("xdg-mime failed to start: not found".to_string()))
    );
}

#[test]
fn numbers_are_written_in_decimal() {
    assert_eq!(link_helm::text::decimal(0), "0");
    assert_eq!(link_helm::text::decimal(1005), "1005");
    assert_eq!(link_helm::text::decimal(u64::MAX), "18446744073709551615");
    assert_eq!(link_helm::text::parse_u32("4294967295"), Some(u32::MAX));
    assert_eq!(link_helm::text::parse_u32("4294967296"), None);
    assert_eq!(link_helm::text::parse_u32("+7"), Some(7));
    assert_eq!(link_helm::text::parse_u32("7a"), None);
}

#[test]
fn singleton_links_decide_whether_the_socket_is_used() {
    let found = |s: &str| SingletonLink::Found(s.to_string());
    assert_eq!(singleton_verdict(&SingletonLink::Missing, &found("c"), &Ok("c".to_string())), Ok(false));
    assert_eq!(
        singleton_verdict(&SingletonLink::Unreadable("denied".to_string()), &found("c"), &Ok("c".to_string())),
        Err("denied".to_string())
    );
    assert_eq!(singleton_verdict(&found("/tmp/s"), &SingletonLink::Missing, &Err(String::new())), Ok(false));
    assert_eq!(singleton_verdict(&found("/tmp/s"), &found("c"), &Ok("c".to_string())), Ok(true));
    assert_eq!(
        singleton_verdict(&found("/tmp/s"), &found("c"), &Ok("d".to_string())),
        Err("Chrome singleton cookie verification failed".to_string())
    );
    assert_eq!(
        singleton_verdict(&found("/tmp/s"), &found("c"), &Err("gone".to_string())),
        Err("gone".to_string())
    );
}
