use lan_party_tools::errors::SteamError;
use lan_party_tools::steamapps::{join_path, OsFamily, SteamApps};

#[test]
fn default_root_per_os_family() {
    assert_eq!(
        SteamApps::default(OsFamily::Windows).location,
        "C:\\Program Files (x86)\\Steam\\steamapps"
    );
    assert_eq!(
        SteamApps::default(OsFamily::MacOs).location,
        "~/Library/Application Support/Steam"
    );
    assert_eq!(
        SteamApps::default(OsFamily::Linux).location,
        "~/.steam/steam/steamapps"
    );
}

#[test]
fn path_takes_the_location_verbatim() {
    let sa = SteamApps::path(String::from("relative/never/checked"));
    assert_eq!(sa.location, "relative/never/checked");
}

#[test]
fn console_input_overrides_the_default() {
    let sa = SteamApps::from_console_input(Some(String::from("/mnt/games")), OsFamily::Linux);
    assert_eq!(sa.location, "/mnt/games");
}

#[test]
fn console_input_falls_back_to_the_default() {
    let sa = SteamApps::from_console_input(None, OsFamily::Linux);
    assert_eq!(sa.location, "~/.steam/steam/steamapps");
}

#[test]
fn join_path_uses_one_separator() {
    assert_eq!(join_path("a", "b"), "a/b");
    assert_eq!(join_path("", "b"), "/b");
}

#[test]
fn common_path_is_root_slash_common() {
    let sa = SteamApps::path(String::from("sa"));
    assert_eq!(sa.common_path(), "sa/common");
}

#[test]
fn get_common_follows_the_probe() {
    let sa = SteamApps::path(String::from("sa"));
    assert_eq!(sa.get_common(true), Some(String::from("sa/common")));
    assert_eq!(sa.get_common(false), None);
}

#[test]
fn get_or_create_common_fails_only_when_unavailable() {
    let sa = SteamApps::path(String::from("sa"));
    assert_eq!(sa.get_or_create_common(true), Ok(String::from("sa/common")));
    assert_eq!(
        sa.get_or_create_common(false),
        Err(SteamError::DirectoryCreateFailed)
    );
}

#[test]
fn manifest_path_follows_the_convention() {
    let sa = SteamApps::path(String::from("sa"));
    assert_eq!(sa.get_manifest_path("42"), "sa/appmanifest_42.acf");
    assert_eq!(sa.get_manifest_path(""), "sa/appmanifest_.acf");
}

#[test]
fn get_manifest_wraps_the_read_text() {
    let sa = SteamApps::path(String::from("sa"));
    let m = sa
        .get_manifest("42", Some(String::from("\t\"appid\"\t\"42\"\n")))
        .unwrap();
    assert_eq!(m.appid(), Some("42"));
}

#[test]
fn get_manifest_reports_a_failed_read() {
    let sa = SteamApps::path(String::from("sa"));
    match sa.get_manifest("42", None) {
        Err(e) => assert_eq!(e, SteamError::ManifestUnreadable),
        Ok(_) => panic!("a missing read must not yield a manifest"),
    }
}

#[test]
fn clone_keeps_the_location() {
    let sa = SteamApps::path(String::from("sa"));
    assert_eq!(sa.clone().location, sa.location);
}
