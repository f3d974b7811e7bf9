use lan_party_tools::errors::{Field, SteamError};
use lan_party_tools::listing::{
    find_manifests_in_folder, is_manifest_file_name, list_rows, listing_row, render_row,
    ListingRow, RootEntry,
};
use lan_party_tools::manifest::AppManifest;

fn entry(name: &str, is_file: bool) -> RootEntry {
    RootEntry {
        name: String::from(name),
        is_file,
    }
}

#[test]
fn the_name_filter_wants_the_exact_prefix() {
    assert!(is_manifest_file_name("appmanifest_42.acf"));
    assert!(is_manifest_file_name("appmanifest_"));
    assert!(!is_manifest_file_name("appmanifest"));
    assert!(!is_manifest_file_name("Appmanifest_42.acf"));
    assert!(!is_manifest_file_name("xappmanifest_42.acf"));
    assert!(!is_manifest_file_name(""));
}

#[test]
fn only_manifest_files_are_kept_in_order() {
    let entries = vec![
        entry("appmanifest_2.acf", true),
        entry("common", false),
        entry("notes.txt", true),
        entry("appmanifest_1.acf", true),
        entry("appmanifest_9.acf", false),
    ];
    let kept = find_manifests_in_folder(&entries);
    assert_eq!(kept, vec!["appmanifest_2.acf", "appmanifest_1.acf"]);
}

#[test]
fn an_empty_root_keeps_nothing() {
    assert_eq!(find_manifests_in_folder(&Vec::new()), Vec::<String>::new());
}

#[test]
fn a_row_holds_identifier_and_name() {
    let m = AppManifest::new(String::from("\t\"appid\"\t\"42\"\n\t\"name\"\t\"The Game\"\n"));
    let row = listing_row(&m).unwrap();
    assert_eq!(row.appid, "42");
    assert_eq!(row.game_name, "The Game");
}

#[test]
fn a_missing_appid_is_its_own_failure() {
    let m = AppManifest::new(String::from("\t\"name\"\t\"The Game\"\n"));
    assert_eq!(
        listing_row(&m).err(),
        Some(SteamError::FieldMissing(Field::AppId))
    );
}

#[test]
fn a_missing_name_is_its_own_failure() {
    let m = AppManifest::new(String::from("\t\"appid\"\t\"42\"\n"));
    assert_eq!(
        listing_row(&m).err(),
        Some(SteamError::FieldMissing(Field::GameName))
    );
}

#[test]
fn an_empty_root_lists_as_an_empty_inventory() {
    match list_rows(&Vec::new()) {
        Ok(rows) => assert_eq!(rows.len(), 0),
        Err(_) => panic!("an empty root is not an error"),
    }
}

#[test]
fn a_clean_root_lists_every_manifest_in_order() {
    let texts = vec![
        Some(String::from("\t\"appid\"\t\"1\"\n\t\"name\"\t\"One\"\n")),
        Some(String::from("\t\"appid\"\t\"2\"\n\t\"name\"\t\"Two\"\n")),
    ];
    let rows = list_rows(&texts).unwrap();
    assert_eq!(rows.len(), 2);
    assert_eq!(rows[0].appid, "1");
    assert_eq!(rows[0].game_name, "One");
    assert_eq!(rows[1].appid, "2");
    assert_eq!(rows[1].game_name, "Two");
}

#[test]
fn the_first_failure_aborts_the_whole_listing() {
    // unlike backup and restore, listing stops at the first bad entry
    let texts = vec![
        Some(String::from("\t\"appid\"\t\"1\"\n\t\"name\"\t\"One\"\n")),
        None,
        Some(String::from("\t\"appid\"\t\"3\"\n\t\"name\"\t\"Three\"\n")),
    ];
    match list_rows(&texts) {
        Err(e) => assert_eq!(e, SteamError::ManifestUnreadable),
        Ok(_) => panic!("an unreadable manifest aborts the listing"),
    }
}

#[test]
fn a_parse_failure_in_the_middle_aborts_too() {
    let texts = vec![
        Some(String::from("\t\"appid\"\t\"1\"\n\t\"name\"\t\"One\"\n")),
        Some(String::from("\t\"appid\"\t\"2\"\n")),
    ];
    assert_eq!(
        list_rows(&texts).err(),
        Some(SteamError::FieldMissing(Field::GameName))
    );
}

#[test]
fn a_rendered_row_is_id_tab_dash_name() {
    let row = ListingRow {
        appid: String::from("42"),
        game_name: String::from("The Game"),
    };
    assert_eq!(render_row(&row), "42\t- The Game");
}
