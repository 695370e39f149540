use save_manager::resolver::{HostEnv, HostOs, SteamService};

fn linux_env(docs: bool, steam: bool) -> HostEnv {
    HostEnv {
        os: HostOs::Linux,
        data_local_dir: "/home/ana/.local/share".to_string(),
        config_dir: "/home/ana/.config".to_string(),
        home_dir: "/home/ana".to_string(),
        document_dir: if docs { Some("/home/ana/Documents".to_string()) } else { None },
        steam_root: if steam { Some("/home/ana/.steam/steam".to_string()) } else { None },
    }
}

fn windows_env() -> HostEnv {
    HostEnv {
        os: HostOs::Windows,
        data_local_dir: "C:\\Users\\ana\\AppData\\Local".to_string(),
        config_dir: "C:\\Users\\ana\\AppData\\Roaming".to_string(),
        home_dir: "C:\\Users\\ana".to_string(),
        document_dir: Some("C:\\Users\\ana\\Documents".to_string()),
        steam_root: None,
    }
}

#[test]
fn truncation_drops_placeholder_and_trailing_separator() {
    let env = linux_env(true, false);
    let r = SteamService::resolve_path_root("%APPDATA%/Save/<slot>*", 7, &env, false);
    assert_eq!(r, "/home/ana/.config/Save");
}

#[test]
fn truncation_at_glob_and_question_mark() {
    let env = linux_env(true, false);
    assert_eq!(SteamService::resolve_path_root("<home>/saves/*.sav", 7, &env, false), "/home/ana/saves");
    assert_eq!(SteamService::resolve_path_root("<home>/a?b", 7, &env, false), "/home/ana/a");
}

#[test]
fn resolution_is_deterministic() {
    let env = linux_env(true, true);
    let t = "<winAppData>/Studio/Game";
    let a = SteamService::resolve_path_root(t, 440, &env, true);
    let b = SteamService::resolve_path_root(t, 440, &env, true);
    assert_eq!(a, b);
}

#[test]
fn token_only_template_leaves_no_token_text() {
    let env = linux_env(true, false);
    let r = SteamService::resolve_path_root("%USERPROFILE%%DOCUMENTS%<winLocalAppData>", 1, &env, false);
    assert_eq!(r, "/home/ana/home/ana/Documents/home/ana/.local/share");
    assert!(!r.contains('%') && !r.contains('<'));
}

#[test]
fn every_native_token_is_substituted() {
    let env = linux_env(true, false);
    assert_eq!(SteamService::resolve_path_root("%LOCALAPPDATA%/x", 1, &env, false), "/home/ana/.local/share/x");
    assert_eq!(SteamService::resolve_path_root("%APPDATA%/x", 1, &env, false), "/home/ana/.config/x");
    assert_eq!(SteamService::resolve_path_root("%USERPROFILE%/x", 1, &env, false), "/home/ana/x");
    assert_eq!(SteamService::resolve_path_root("<home>/x", 1, &env, false), "/home/ana/x");
    assert_eq!(SteamService::resolve_path_root("<winAppData>/x", 1, &env, false), "/home/ana/.config/x");
    assert_eq!(SteamService::resolve_path_root("<winLocalAppData>/x", 1, &env, false), "/home/ana/.local/share/x");
    assert_eq!(SteamService::resolve_path_root("%DOCUMENTS%/x", 1, &env, false), "/home/ana/Documents/x");
    assert_eq!(SteamService::resolve_path_root("<winDocuments>/x", 1, &env, false), "/home/ana/Documents/x");
}

#[test]
fn documents_tokens_stay_when_host_has_none() {
    let env = linux_env(false, false);
    assert_eq!(SteamService::resolve_path_root("%DOCUMENTS%/Game", 1, &env, false), "%DOCUMENTS%/Game");
    // the bracket form is cut at its `<`
    assert_eq!(SteamService::resolve_path_root("<winDocuments>/Game", 1, &env, false), "");
}

#[test]
fn unknown_tokens_are_literal_text() {
    let env = linux_env(true, false);
    assert_eq!(SteamService::resolve_path_root("%PROGRAMDATA%/Game", 1, &env, false), "%PROGRAMDATA%/Game");
}

#[test]
fn backslashes_become_forward_slashes_off_windows() {
    let env = linux_env(true, false);
    assert_eq!(SteamService::resolve_path_root("%APPDATA%\\Studio\\Game\\\\", 1, &env, false), "/home/ana/.config/Studio/Game");
}

#[test]
fn windows_uses_backslashes() {
    let env = windows_env();
    assert_eq!(
        SteamService::resolve_path_root("%APPDATA%/Studio/Game/", 1, &env, false),
        "C:\\Users\\ana\\AppData\\Roaming\\Studio\\Game"
    );
}

#[test]
fn empty_after_truncation_resolves_to_empty() {
    let env = linux_env(true, false);
    assert_eq!(SteamService::resolve_path_root("<storeUserId>", 1, &env, false), "");
    assert_eq!(SteamService::resolve_path_root("", 1, &env, false), "");
}

#[test]
fn compat_prefix_path_of_title() {
    assert_eq!(
        SteamService::compat_prefix_path("/s", 440),
        "/s/steamapps/compatdata/440/pfx/drive_c/users/steamuser"
    );
    assert_eq!(
        SteamService::compat_prefix_path("/s/", 0),
        "/s/steamapps/compatdata/0/pfx/drive_c/users/steamuser"
    );
}

#[test]
fn compat_prefix_used_for_windows_profile_templates() {
    let env = linux_env(true, true);
    let p = "/home/ana/.steam/steam/steamapps/compatdata/440/pfx/drive_c/users/steamuser";
    assert_eq!(
        SteamService::resolve_path_root("<home>/Saved Games/Studio", 440, &env, true),
        format!("{}/Saved Games/Studio", p)
    );
    assert_eq!(
        SteamService::resolve_path_root("<winAppData>/Studio", 440, &env, true),
        format!("{}/AppData/Roaming/Studio", p)
    );
    assert_eq!(
        SteamService::resolve_path_root("%USERPROFILE%\\AppData\\LocalLow\\Studio\\", 440, &env, true),
        format!("{}/AppData/LocalLow/Studio/", p)
    );
    assert_eq!(
        SteamService::resolve_path_root("%LOCALAPPDATA%/AppData-less", 440, &env, true),
        format!("{}/AppData/Local/AppData-less", p)
    );
}

#[test]
fn compat_branch_strips_drive_letter() {
    let env = linux_env(true, true);
    assert_eq!(
        SteamService::resolve_path_root("C:\\Users\\Public\\AppData\\Game", 9, &env, true),
        "/Users/Public/AppData/Game"
    );
    assert_eq!(
        SteamService::resolve_path_root("c:/ProgramData/AppData/Game", 9, &env, true),
        "/ProgramData/AppData/Game"
    );
}

#[test]
fn compat_not_used_without_prefix_or_off_linux() {
    let env = linux_env(true, true);
    assert_eq!(
        SteamService::resolve_path_root("<winAppData>/Studio", 440, &env, false),
        "/home/ana/.config/Studio"
    );
    let mut mac = linux_env(true, true);
    mac.os = HostOs::MacOs;
    assert_eq!(
        SteamService::resolve_path_root("<winAppData>/Studio", 440, &mac, true),
        "/home/ana/.config/Studio"
    );
    let no_root = linux_env(true, false);
    assert_eq!(
        SteamService::resolve_path_root("<winAppData>/Studio", 440, &no_root, true),
        "/home/ana/.config/Studio"
    );
}

#[test]
fn compat_needs_a_marker_in_the_template() {
    let env = linux_env(true, true);
    assert_eq!(
        SteamService::resolve_path_root("%APPDATA%/Studio", 440, &env, true),
        "/home/ana/.config/Studio"
    );
}

#[test]
fn compat_prefix_maps_win_app_data() {
    let env = linux_env(true, true);
    let p = SteamService::compat_prefix_path("/home/ana/.steam/steam", 42);
    let r = SteamService::resolve_path_root("<winAppData>/Dev/Game", 42, &env, true);
    assert_eq!(r, format!("{}/AppData/Roaming/Dev/Game", p));
    assert!(!r.contains("<winAppData>"));
}

#[test]
fn slash_joined_tokens_leave_no_token_text() {
    let env = linux_env(true, false);
    let t = "%LOCALAPPDATA%/%APPDATA%/%USERPROFILE%/<home>/<winAppData>/<winLocalAppData>/%DOCUMENTS%/<winDocuments>";
    let r = SteamService::resolve_path_root(t, 1, &env, false);
    assert_eq!(
        r,
        "/home/ana/.local/share//home/ana/.config//home/ana//home/ana//home/ana/.config//home/ana/.local/share//home/ana/Documents//home/ana/Documents"
    );
    assert!(!r.contains('%') && !r.contains('<'));
}
