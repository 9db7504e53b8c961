use link_helm::browser::{BrowserProfile, OpenDisposition};
use link_helm::browser_adapters::{BrowserAdapter, BrowserError};
use link_helm::chromium::{BraveAdapter, ChromeAdapter, EdgeAdapter, ProfileListing};
use link_helm::firefox::{parse_profiles_ini, FirefoxAdapter};
use link_helm::ids::{BrowserId, ProfileId};
use link_helm::web_url::WebUrl;

fn listing(dirs: &[&str], local_state: Option<&str>) -> ProfileListing {
    ProfileListing {
        directories: dirs.iter().map(|d| d.to_string()).collect(),
        local_state: local_state.map(|s| s.as_bytes().to_vec()),
    }
}

#[test]
fn discovers_chromium_profile_directories() {
    let adapter = ChromeAdapter::adapter();
    let profiles = adapter
        .discover_profiles(Some(&listing(&["Default", "Profile 1", "System Profile", "ShaderCache"], None)))
        .unwrap();
    let ids: Vec<_> = profiles.iter().map(|p| p.profile_id.as_str()).collect();
    assert!(ids.contains(&"Default"));
    assert!(ids.contains(&"Profile 1"));
    assert!(!ids.contains(&"System Profile"));
    assert!(!ids.contains(&"ShaderCache"));
}

#[test]
fn uses_local_state_profile_names_and_stable_directory_ids() {
    let local_state = r#"{
      "profile": {
        "info_cache": {
          "Default": { "name": "Personal" },
          "Profile 2": { "name": "Work" },
          "Profile 9": { "name": "Deleted" }
        }
      }
    }"#;
    let profiles = ChromeAdapter::adapter()
        .discover_profiles(Some(&listing(&["Profile 2", "Default"], Some(local_state))))
        .unwrap();
    assert_eq!(profiles.len(), 2);
    assert_eq!(profiles[0].profile_id.as_str(), "Default");
    assert_eq!(profiles[0].display_name, "Personal");
    assert_eq!(profiles[1].profile_id.as_str(), "Profile 2");
    assert_eq!(profiles[1].display_name, "Work");
}

#[test]
fn chromium_profiles_launch_with_their_directory_and_fall_back_to_its_name() {
    let local_state = r#"{"profile":{"info_cache":{"Profile 3":{"name":"   "}}}}"#;
    let profiles = EdgeAdapter::adapter()
        .discover_profiles(Some(&listing(&["Profile 3"], Some(local_state))))
        .unwrap();
    assert_eq!(profiles[0].browser_id.as_str(), "com.microsoft.edgemac");
    assert_eq!(profiles[0].display_name, "Profile 3");
    assert_eq!(profiles[0].launch_args, vec!["--profile-directory=Profile 3".to_string()]);
    assert!(!profiles[0].is_incognito);
}

#[test]
fn unknown_chromium_data_directory_is_an_error() {
    let error = BraveAdapter::adapter().discover_profiles(None).unwrap_err();
    assert_eq!(error, BrowserError::Other("browser data dir unknown".to_string()));
    assert_eq!(error.message(), "browser error: browser data dir unknown");
}

#[test]
fn builds_open_intent_with_profile_arg_and_url() {
    let adapter = ChromeAdapter::adapter();
    let profile = BrowserProfile {
        browser_id: BrowserId::new("com.google.Chrome"),
        profile_id: ProfileId::new("Work"),
        display_name: "Work".to_string(),
        launch_args: vec!["--profile-directory=Work".to_string()],
        is_incognito: false,
    };
    let intent = adapter
        .build_open_intent(&profile, &WebUrl::parse("https://example.com/x?y=1").unwrap(), OpenDisposition::NewWindow)
        .unwrap();
    assert_eq!(intent.args.len(), 3);
    assert_eq!(intent.args[1], "--new-window");
    assert_eq!(intent.args[2], "https://example.com/x?y=1");
}

#[test]
fn capabilities_only_advertise_implemented_chromium_behaviour() {
    let capabilities = ChromeAdapter::adapter().capabilities();
    assert!(capabilities.discover_profiles);
    assert!(capabilities.create_profile_window);
    assert!(!capabilities.map_windows_to_profiles);
    assert!(capabilities.open_in_existing_profile);
    assert!(!capabilities.distinguish_incognito);
}

#[test]
fn chromium_descriptors_name_each_browser() {
    let chrome = ChromeAdapter::adapter().descriptor();
    assert_eq!(chrome.id.as_str(), "com.google.Chrome");
    assert_eq!(chrome.display_name, "Google Chrome");
    assert_eq!(BraveAdapter::adapter().data_dir_name(), "BraveSoftware/Brave-Browser");
}

#[test]
fn parses_firefox_profiles_ini() {
    let content = "[Profile0]\nName=default\nIsRelative=1\nPath=Profiles/abc.default\n\n[Profile1]\nName=work\nIsRelative=1\nPath=Profiles/xyz.work\n";
    let adapter = FirefoxAdapter;
    let profiles = adapter.discover_profiles(&Some(Ok(content.to_string()))).unwrap();
    assert_eq!(profiles.len(), 2);
    assert_eq!(profiles[0].profile_id.as_str(), "Profiles/abc.default");
    assert_eq!(profiles[1].display_name, "work");
    assert_eq!(profiles[1].launch_args[1], "work");
}

#[test]
fn firefox_sections_without_a_path_are_skipped() {
    let profiles = parse_profiles_ini("[General]\nStartWithLastProfile=1\n\n[Profile0]\nName=only\nPath=p0\n");
    assert_eq!(profiles.len(), 1);
    assert_eq!(profiles[0].launch_args, vec!["-P".to_string(), "only".to_string(), "-no-remote".to_string()]);
}

#[test]
fn unreadable_profiles_ini_is_an_error() {
    let error = FirefoxAdapter.discover_profiles(&Some(Err("denied".to_string()))).unwrap_err();
    assert_eq!(error.message(), "browser error: cannot read profiles.ini: denied");
    assert!(FirefoxAdapter.discover_profiles(&None).is_err());
}

#[test]
fn builds_firefox_open_intent() {
    let profile = BrowserProfile {
        browser_id: BrowserId::new("org.mozilla.firefox"),
        profile_id: ProfileId::new("Profiles/xyz.work"),
        display_name: "work".to_string(),
        launch_args: vec!["-P".to_string(), "work".to_string(), "-no-remote".to_string()],
        is_incognito: false,
    };
    let intent = FirefoxAdapter
        .build_open_intent(&profile, &WebUrl::parse("https://example.com").unwrap(), OpenDisposition::ExistingWindow)
        .unwrap();
    assert_eq!(intent.args.last().unwrap(), "https://example.com/");
}

#[test]
fn firefox_new_window_flag_precedes_the_link() {
    let profile = BrowserProfile {
        browser_id: BrowserId::new("org.mozilla.firefox"),
        profile_id: ProfileId::new("p"),
        display_name: "p".to_string(),
        launch_args: vec!["-P".to_string(), "p".to_string()],
        is_incognito: false,
    };
    let intent = FirefoxAdapter
        .build_open_intent(&profile, &WebUrl::parse("https://example.com/a").unwrap(), OpenDisposition::NewWindow)
        .unwrap();
    assert_eq!(intent.args, vec!["-P", "p", "-new-window", "https://example.com/a"]);
}
