use toolchain_resolver::clean_toolchain_name;
use toolchain_resolver::with_date;

#[test]
fn simple_name() {
    assert_eq!("nightly", clean_toolchain_name("nightly-x86_64-unknown-linux-gnu"));
    assert_eq!("nightly", clean_toolchain_name("nightly"));
}

#[test]
fn name_with_date() {
    assert_eq!("nightly-2016-06-05", clean_toolchain_name("nightly-2016-06-05-x86_64-unknown-linux-gnu"));
}

#[test]
fn stable_and_beta_channels() {
    assert_eq!("stable", clean_toolchain_name("stable-x86_64-unknown-linux-gnu"));
    assert_eq!("beta", clean_toolchain_name("beta-x86_64-unknown-linux-gnu"));
    assert_eq!("stable-2020-01-02", clean_toolchain_name("stable-2020-01-02-x86_64-apple-darwin"));
    assert_eq!("beta-1999-12-31", clean_toolchain_name("beta-1999-12-31"));
}

#[test]
fn short_input_returns_bare_prefix() {
    assert_eq!("nightly", clean_toolchain_name("nightly-1"));
    assert_eq!("nightly", clean_toolchain_name("nightly-2016"));
    assert_eq!("nightly", clean_toolchain_name("nightly-2016-06-0"));
    assert_eq!("beta", clean_toolchain_name("beta-"));
}

#[test]
fn unrecognized_prefix_is_preserved() {
    assert_eq!("custom-toolchain", clean_toolchain_name("custom-toolchain"));
    assert_eq!("", clean_toolchain_name(""));
    assert_eq!("1.9.0", clean_toolchain_name("1.9.0"));
    assert_eq!("Nightly-2016-06-05", clean_toolchain_name("Nightly-2016-06-05"));
}

#[test]
fn normalization_is_idempotent_on_samples() {
    let samples = [
        "nightly-2016-06-05-x86_64-unknown-linux-gnu",
        "nightly-x86_64-unknown-linux-gnu",
        "stable",
        "beta-2021-03-04-i686-pc-windows-msvc",
        "custom-toolchain",
        "nightly-1",
        "",
    ];
    for raw in samples {
        let once = clean_toolchain_name(raw);
        let twice = clean_toolchain_name(&once);
        assert_eq!(once, twice);
    }
}

#[test]
fn with_date_extracts_full_date() {
    assert_eq!(
        Some(String::from("nightly-2016-06-05")),
        with_date("nightly", "nightly-2016-06-05-x86_64-unknown-linux-gnu")
    );
    assert_eq!(None, with_date("nightly", "nightly-x86_64-unknown-linux-gnu"));
    assert_eq!(None, with_date("nightly", "nightly-1"));
    assert_eq!(None, with_date("nightly", "nightly"));
}

#[test]
fn digits_required_right_after_separator() {
    assert_eq!("nightly", clean_toolchain_name("nightly-x016-06-05-rest-of-triple"));
    assert_eq!("nightly-2016-06-05", clean_toolchain_name("nightly-2016-06-05"));
}
