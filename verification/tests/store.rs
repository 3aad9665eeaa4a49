use toolchain_resolver::load_plain_overrides;
use toolchain_resolver::load_settings_toml;
use toolchain_resolver::OverridesDatabase;

#[test]
fn plain_load_and_exact_lookup() {
    let db = load_plain_overrides("/home/user;stable\n/home/user/project;nightly\n").unwrap();
    assert_eq!(Some("stable"), db.get("/home/user"));
    assert_eq!(Some("nightly"), db.get("/home/user/project"));
    assert_eq!(None, db.get("/home/user/other"));
    assert_eq!(None, db.get("/home/user/"));
}

#[test]
fn plain_load_without_trailing_newline() {
    let db = load_plain_overrides("/home/user;stable").unwrap();
    assert_eq!(Some("stable"), db.get("/home/user"));
}

#[test]
fn plain_duplicate_key_last_wins() {
    let db = load_plain_overrides("/home/user;stable\n/home/user;beta\n").unwrap();
    assert_eq!(Some("beta"), db.get("/home/user"));
}

#[test]
fn plain_toolchain_keeps_text_after_second_separator() {
    let db = load_plain_overrides("/home/user;odd;name\n").unwrap();
    assert_eq!(Some("odd;name"), db.get("/home/user"));
}

#[test]
fn plain_line_without_separator_fails_load() {
    assert!(load_plain_overrides("/home/user;stable\nno separator here\n").is_err());
    assert!(load_plain_overrides("\n").is_err());
    assert!(load_plain_overrides("/home/user;stable\n\n/a;b\n").is_err());
}

#[test]
fn plain_empty_content_is_empty_store() {
    let db = load_plain_overrides("").unwrap();
    assert_eq!(None, db.get("/"));
    assert_eq!(None, db.get(""));
}

#[test]
fn structured_load_and_lookup() {
    let db = load_settings_toml(
        "version = \"12\"\n\n[overrides]\n\"/home/user\" = \"stable\"\n\"/home/user/project\" = \"nightly\"\n",
    )
    .unwrap();
    assert_eq!(Some("stable"), db.get("/home/user"));
    assert_eq!(Some("nightly"), db.get("/home/user/project"));
    assert_eq!(None, db.get("/home"));
}

#[test]
fn structured_missing_overrides_table_fails_load() {
    assert!(load_settings_toml("").is_err());
    assert!(load_settings_toml("[other]\nx = \"y\"\n").is_err());
    assert!(load_settings_toml("version = \"12\"\n").is_err());
}

#[test]
fn structured_overrides_not_a_table_fails_load() {
    assert!(load_settings_toml("overrides = \"stable\"\n").is_err());
    assert!(load_settings_toml("overrides = 3\n").is_err());
}

#[test]
fn structured_non_string_value_fails_load() {
    assert!(load_settings_toml("[overrides]\n\"/home/user\" = 3\n").is_err());
    assert!(load_settings_toml("[overrides]\n\"/home/user\" = [\"stable\"]\n").is_err());
    assert!(
        load_settings_toml("[overrides]\n\"/a\" = \"stable\"\n\"/b\" = false\n").is_err()
    );
}

#[test]
fn structured_syntax_error_fails_load() {
    assert!(load_settings_toml("][").is_err());
    assert!(load_settings_toml("[overrides\n").is_err());
}

#[test]
fn stores_built_by_hand_look_up_like_loaded_ones() {
    let plain = OverridesDatabase::Plain(vec![
        (String::from("/home/user"), String::from("stable")),
    ]);
    let loaded = load_plain_overrides("/home/user;stable\n").unwrap();
    assert_eq!(plain.get("/home/user"), loaded.get("/home/user"));
    assert_eq!(plain.get("/home"), loaded.get("/home"));
}
