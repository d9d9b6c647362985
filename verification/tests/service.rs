use paneru::service::{
    launch_agent_up_to_date, paths_equal, PathError, Service, ServiceError, ID,
};

fn service() -> Service {
    Service::try_new(
        ID,
        Some("/Users/tester".to_string()),
        Some("/opt/homebrew/bin/paneru".to_string()),
        501,
    )
    .expect("service should be constructible")
}

#[test]
fn launchd_plist_uses_stable_app_bundle_executable() {
    let service = service();
    let plist = service.launchd_plist(None);
    let app_executable = service.app_executable_path();

    assert!(
        plist.contains(&format!("<string>{}</string>", app_executable)),
        "launchd plist should point at stable app bundle executable: {plist}",
    );
    assert!(
        !plist.contains(&format!("<string>{}</string>", service.bin_path())),
        "launchd plist should not point directly at the command-line executable: {plist}",
    );
}

#[test]
fn service_paths() {
    let service = service();
    assert_eq!(service.plist_path(), "/Users/tester/Library/LaunchAgents/com.github.karinushka.paneru.plist");
    assert_eq!(service.app_bundle_path(), "/Users/tester/Applications/Paneru.app");
    assert_eq!(
        service.app_executable_path(),
        "/Users/tester/Applications/Paneru.app/Contents/MacOS/paneru"
    );
    assert_eq!(service.raw().name, ID);
    assert_eq!(service.raw().uid, "501");
    assert_eq!(service.raw().domain_target, "gui/501");
    assert_eq!(service.raw().service_target, "gui/501/com.github.karinushka.paneru");
    assert_eq!(service.raw().error_log_path, "/tmp/com.github.karinushka.paneru_501.err.log");
    assert_eq!(service.raw().out_log_path, "/tmp/com.github.karinushka.paneru_501.out.log");
    assert_eq!(service.bin_path(), "/opt/homebrew/bin/paneru");
}

#[test]
fn home_with_trailing_separator_is_joined_once() {
    let service = Service::try_new(ID, Some("/Users/tester/".to_string()), Some("/bin/p".to_string()), 0)
        .expect("service should be constructible");
    assert_eq!(service.app_bundle_path(), "/Users/tester/Applications/Paneru.app");
}

#[test]
fn missing_home_or_executable_is_an_error() {
    assert_eq!(
        Service::try_new(ID, None, Some("/bin/p".to_string()), 501).err(),
        Some(ServiceError::HomeDirectoryNotFound)
    );
    assert_eq!(
        Service::try_new(ID, None, None, 501).err(),
        Some(ServiceError::HomeDirectoryNotFound)
    );
    assert_eq!(
        Service::try_new(ID, Some("/Users/t".to_string()), None, 501).err(),
        Some(ServiceError::ExecutablePathNotFound)
    );
}

#[test]
fn launchd_plist_config_home() {
    let service = service();
    let default = service.launchd_plist(None);
    assert!(default.contains("<key>XDG_CONFIG_HOME</key>\n        <string>/Users/tester/.config</string>"));
    let custom = service.launchd_plist(Some("/etc/xdg".to_string()));
    assert!(custom.contains("<key>XDG_CONFIG_HOME</key>\n        <string>/etc/xdg</string>"));
    assert!(custom.contains("<string>com.github.karinushka.paneru</string>"));
    assert!(custom.contains("<string>/tmp/com.github.karinushka.paneru_501.out.log</string>"));
    assert!(custom.contains("<string>/tmp/com.github.karinushka.paneru_501.err.log</string>"));
}

#[test]
fn app_info_plist_names_bundle_and_version() {
    let service = service();
    let info = service.app_info_plist("0.4.1");
    assert!(info.contains("<key>CFBundleIdentifier</key>\n    <string>com.github.karinushka.paneru</string>"));
    assert!(info.contains("<key>CFBundleShortVersionString</key>\n    <string>0.4.1</string>"));
    assert!(info.contains("<key>CFBundleVersion</key>\n    <string>0.4.1</string>"));
    assert!(info.starts_with("<?xml version=\"1.0\" encoding=\"UTF-8\"?>"));
    assert!(info.ends_with("</plist>\n"));
}

#[test]
fn paths_equal_cases() {
    let ok = |s: &str| -> Result<String, PathError<&'static str>> { Ok(s.to_string()) };
    let missing = || -> Result<String, PathError<&'static str>> {
        Err(PathError { not_found: true, error: "missing" })
    };
    let denied = || -> Result<String, PathError<&'static str>> {
        Err(PathError { not_found: false, error: "denied" })
    };
    assert_eq!(paths_equal(ok("/a/b"), ok("/a/b")), Ok(true));
    assert_eq!(paths_equal(ok("/a/b"), ok("/a/c")), Ok(false));
    assert_eq!(paths_equal(ok("/a/b"), missing()), Ok(false));
    assert_eq!(paths_equal(ok("/a/b"), denied()), Err("denied"));
    assert_eq!(paths_equal(missing(), ok("/a/b")), Err("missing"));
    assert_eq!(paths_equal(denied(), missing()), Err("denied"));
}

#[test]
fn launch_agent_up_to_date_cases() {
    assert!(launch_agent_up_to_date(Some("abc"), "abc"));
    assert!(!launch_agent_up_to_date(Some("abd"), "abc"));
    assert!(!launch_agent_up_to_date(None, "abc"));
}
