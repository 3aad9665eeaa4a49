use toolchain_resolver::load_plain_overrides;
use toolchain_resolver::load_settings_toml;
use toolchain_resolver::parent_dir;
use toolchain_resolver::resolve;
use toolchain_resolver::resolve_toolchain;
use toolchain_resolver::OverridesDatabase;
use toolchain_resolver::Resolution;

#[test]
fn deepest_ancestor_wins() {
    let db = load_plain_overrides("/home/user;stable\n/home/user/project;nightly\n").unwrap();
    assert_eq!("nightly", resolve_toolchain(&db, "/home/user/project/src"));
    assert_eq!("nightly", resolve_toolchain(&db, "/home/user/project"));
    assert_eq!("stable", resolve_toolchain(&db, "/home/user/code"));
    assert_eq!("stable", resolve_toolchain(&db, "/home/user"));
}

#[test]
fn fallback_on_no_match() {
    let db = load_plain_overrides("/home/user;stable\n").unwrap();
    assert_eq!("default", resolve_toolchain(&db, "/var/log"));
    let empty = load_plain_overrides("").unwrap();
    assert_eq!("default", resolve_toolchain(&empty, "/home/user/project/src"));
}

#[test]
fn resolution_normalizes_the_matched_name() {
    let db = load_plain_overrides("/a;nightly-2016-06-05-x86_64-unknown-linux-gnu\n").unwrap();
    assert_eq!("nightly-2016-06-05", resolve_toolchain(&db, "/a/b/c"));
}

#[test]
fn root_boundary_terminates_with_default() {
    let empty = load_plain_overrides("").unwrap();
    assert_eq!("default", resolve_toolchain(&empty, "/"));
    let rooted = load_plain_overrides("/;beta\n").unwrap();
    assert_eq!("beta", resolve_toolchain(&rooted, "/"));
}

#[test]
fn resolve_reports_not_found_without_the_fallback_text() {
    let db = load_plain_overrides("/home/user;default-style-name\n").unwrap();
    match resolve(&db, "/elsewhere") {
        Resolution::NotFound => {},
        Resolution::Found(name) => panic!("unexpected override {name}"),
    }
}

#[test]
fn plain_and_structured_stores_resolve_identically() {
    let plain = load_plain_overrides(
        "/home/user;stable\n/home/user/project;nightly-2016-06-05-x86_64-unknown-linux-gnu\n",
    )
    .unwrap();
    let structured = load_settings_toml(
        "[overrides]\n\"/home/user\" = \"stable\"\n\"/home/user/project\" = \"nightly-2016-06-05-x86_64-unknown-linux-gnu\"\n",
    )
    .unwrap();
    let dirs = [
        "/home/user/project/src",
        "/home/user/project",
        "/home/user/code",
        "/home/user",
        "/home",
        "/",
        "/var/log",
        "relative",
    ];
    for dir in dirs {
        assert_eq!(resolve_toolchain(&plain, dir), resolve_toolchain(&structured, dir));
    }
}

#[test]
fn malformed_structured_document_ends_in_default() {
    let fallback = match load_settings_toml("[overrides]\n\"/home/user\" = 3\n") {
        Ok(db) => resolve_toolchain(&db, "/home/user"),
        Err(_) => String::from("default"),
    };
    assert_eq!("default", fallback);
}

#[test]
fn parent_walk_steps() {
    assert_eq!(Some(String::from("/home")), parent_dir("/home/user"));
    assert_eq!(Some(String::from("/")), parent_dir("/home"));
    assert_eq!(None, parent_dir("/"));
    assert_eq!(None, parent_dir("relative"));
    assert_eq!(None, parent_dir(""));
}

#[test]
fn keys_are_matched_exactly_without_normalization() {
    let db = OverridesDatabase::Plain(vec![
        (String::from("/home/user/"), String::from("stable")),
    ]);
    assert_eq!(None, db.get("/home/user"));
    assert_eq!("default", resolve_toolchain(&db, "/home/user"));
    assert_eq!("stable", resolve_toolchain(&db, "/home/user/"));
}
