use lan_party_tools::manifest::AppManifest;

fn sample() -> AppManifest {
    let text = "\"AppState\"\n{\n\t\"appid\"\t\t\"42\"\n\t\"Universe\"\t\t\"1\"\n\t\"name\"\t\t\"The Game\"\n\t\"StateFlags\"\t\t\"4\"\n\t\"installdir\"\t\t\"The Game\"\n}\n";
    AppManifest::new(String::from(text))
}

#[test]
fn extracts_all_three_fields() {
    let m = sample();
    assert_eq!(m.appid(), Some("42"));
    assert_eq!(m.game_name(), Some("The Game"));
    assert_eq!(m.installdir(), Some("The Game"));
}

#[test]
fn value_keeps_internal_whitespace_exactly() {
    let m = AppManifest::new(String::from("\"installdir\"  \"Half-Life 2  Deathmatch\"\n"));
    assert_eq!(m.installdir(), Some("Half-Life 2  Deathmatch"));
}

#[test]
fn duplicate_field_takes_first_occurrence() {
    let text = "\t\"name\"\t\"First\"\n\t\"name\"\t\"Second\"\n";
    let m = AppManifest::new(String::from(text));
    assert_eq!(m.game_name(), Some("First"));
}

#[test]
fn value_may_contain_quotes() {
    // the closing quote is the last one followed by whitespace only
    let m = AppManifest::new(String::from("\"name\"  \"He said \"hi\"\"\n"));
    assert_eq!(m.game_name(), Some("He said \"hi\""));
}

#[test]
fn empty_value_is_absent() {
    let m = AppManifest::new(String::from("\t\"appid\"\t\"\"\n"));
    assert_eq!(m.appid(), None);
}

#[test]
fn missing_separator_is_absent() {
    let m = AppManifest::new(String::from("\"appid\"\"42\"\n"));
    assert_eq!(m.appid(), None);
}

#[test]
fn unterminated_value_is_absent() {
    let m = AppManifest::new(String::from("\t\"appid\"\t\"42\n"));
    assert_eq!(m.appid(), None);
}

#[test]
fn missing_field_is_absent() {
    let m = AppManifest::new(String::from("\t\"appid\"\t\"42\"\n"));
    assert_eq!(m.game_name(), None);
    assert_eq!(m.installdir(), None);
}

#[test]
fn empty_text_has_no_fields() {
    let m = AppManifest::new(String::new());
    assert_eq!(m.appid(), None);
}

#[test]
fn leading_and_trailing_whitespace_around_the_pattern_is_fine() {
    let m = AppManifest::new(String::from("   \"appid\"   \"42\"   \n"));
    assert_eq!(m.appid(), Some("42"));
}

#[test]
fn field_names_are_case_sensitive() {
    let m = AppManifest::new(String::from("\t\"AppId\"\t\"42\"\n"));
    assert_eq!(m.appid(), None);
}

#[test]
fn matching_is_anchored_per_line() {
    // the pattern must span one line, not run across a line feed
    let m = AppManifest::new(String::from("\t\"appid\"\n\t\"42\"\n"));
    assert_eq!(m.appid(), None);
}

#[test]
fn text_without_trailing_newline_still_matches() {
    let m = AppManifest::new(String::from("\t\"appid\"\t\"42\""));
    assert_eq!(m.appid(), Some("42"));
}

#[test]
fn carriage_returns_count_as_line_whitespace() {
    let m = AppManifest::new(String::from("\t\"appid\"\t\"42\"\r\n\t\"name\"\t\"N\"\r\n"));
    assert_eq!(m.appid(), Some("42"));
    assert_eq!(m.game_name(), Some("N"));
}

#[test]
fn generic_field_lookup_matches_the_named_ones() {
    let m = sample();
    assert_eq!(m.field("appid"), Some("42"));
    assert_eq!(m.field("StateFlags"), Some("4"));
    assert_eq!(m.field("nonexistent"), None);
}

#[test]
fn rederiving_a_field_is_idempotent() {
    let m = sample();
    assert_eq!(m.appid(), m.appid());
    assert_eq!(m.game_name(), m.game_name());
    assert_eq!(m.installdir(), m.installdir());
}

#[test]
fn get_installdir_joins_under_the_payload_directory() {
    let m = sample();
    assert_eq!(
        m.get_installdir("root/common"),
        Some(String::from("root/common/The Game"))
    );
}

#[test]
fn get_installdir_is_absent_without_the_field() {
    let m = AppManifest::new(String::from("\t\"appid\"\t\"42\"\n"));
    assert_eq!(m.get_installdir("root/common"), None);
}
