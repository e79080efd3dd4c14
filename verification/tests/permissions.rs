use taskhomie::permissions::{
    api_key_var, chrome_profile_args, cookie_domains, granted_or_denied, microphone_status,
    parse_permission, profile_path, settings_url, update_env_content, Permission, PermissionStatus,
    PermissionsCheck,
};

#[test]
fn permission_states() {
    let c = PermissionsCheck::not_needed();
    assert_eq!(c.accessibility, PermissionStatus::NotNeeded);
    assert_eq!(c.screen_recording, PermissionStatus::NotNeeded);
    assert_eq!(c.microphone, PermissionStatus::NotNeeded);
    assert_eq!(granted_or_denied(true), PermissionStatus::Granted);
    assert_eq!(granted_or_denied(false), PermissionStatus::Denied);
}

#[test]
fn microphone_output_is_classified() {
    assert_eq!(microphone_status(Some("granted\n")), PermissionStatus::Granted);
    assert_eq!(microphone_status(Some("notasked\n")), PermissionStatus::NotAsked);
    assert_eq!(microphone_status(Some("denied\n")), PermissionStatus::Denied);
    assert_eq!(microphone_status(Some("")), PermissionStatus::Denied);
    assert_eq!(microphone_status(None), PermissionStatus::Denied);
}

#[test]
fn permission_names_and_settings() {
    assert_eq!(parse_permission("accessibility"), Some(Permission::Accessibility));
    assert_eq!(parse_permission("screenRecording"), Some(Permission::ScreenRecording));
    assert_eq!(parse_permission("microphone"), Some(Permission::Microphone));
    assert_eq!(parse_permission("camera"), None);
    assert_eq!(
        settings_url(Permission::Microphone),
        "x-apple.systempreferences:com.apple.preference.security?Privacy_Microphone"
    );
    assert_eq!(
        settings_url(Permission::ScreenRecording),
        "x-apple.systempreferences:com.apple.preference.security?Privacy_ScreenCapture"
    );
}

#[test]
fn profile_path_and_arguments() {
    assert_eq!(profile_path(Some("/Users/ann")), "/Users/ann/.taskhomie-chrome");
    assert_eq!(profile_path(None), "/Users/.taskhomie-chrome");
    let args = chrome_profile_args("/p", Some("https://x.com"));
    assert_eq!(
        args,
        vec![
            "-a",
            "Google Chrome",
            "--args",
            "--user-data-dir=/p",
            "--profile-directory=Default",
            "--no-first-run",
            "--no-default-browser-check",
            "https://x.com"
        ]
    );
    assert_eq!(chrome_profile_args("/p", None).len(), 7);
}

#[test]
fn cookie_domains_drop_dots_and_duplicates() {
    let hosts = vec![
        ".github.com".to_string(),
        "github.com".to_string(),
        "..x.org".to_string(),
        "mail.google.com".to_string(),
        ".x.org".to_string(),
    ];
    assert_eq!(cookie_domains(&hosts), vec!["github.com", "x.org", "mail.google.com"]);
}

#[test]
fn api_key_variables() {
    assert_eq!(api_key_var("anthropic"), Ok("ANTHROPIC_API_KEY"));
    assert_eq!(api_key_var("deepgram"), Ok("DEEPGRAM_API_KEY"));
    assert_eq!(api_key_var("openai"), Err("Unknown service".to_string()));
}

#[test]
fn env_update_replaces_first_assignment() {
    let existing = "A=1\nDEEPGRAM_API_KEY=old\nDEEPGRAM_API_KEY=older\n";
    assert_eq!(
        update_env_content(existing, "DEEPGRAM_API_KEY", "new"),
        "A=1\nDEEPGRAM_API_KEY=new\nDEEPGRAM_API_KEY=older"
    );
}

#[test]
fn env_update_appends_missing_assignment() {
    assert_eq!(update_env_content("A=1\r\nB=2", "K", "v"), "A=1\nB=2\nK=v");
    assert_eq!(update_env_content("", "K", "v"), "K=v");
    // a line that only starts with the name is not an assignment of it
    assert_eq!(update_env_content("KEY2=x", "KEY", "v"), "KEY2=x\nKEY=v");
}

#[test]
fn saved_key_reads_back() {
    let saved = update_env_content("X=1\nANTHROPIC_API_KEY=a\n", "ANTHROPIC_API_KEY", "sk-123");
    let value = saved
        .lines()
        .find_map(|l| l.strip_prefix("ANTHROPIC_API_KEY="))
        .map(|v| v.to_string());
    assert_eq!(value, Some("sk-123".to_string()));
}
