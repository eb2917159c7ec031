use patch_release_me::config::BumpMode;
use patch_release_me::error::Error;
use patch_release_me::version::Version;
use patch_release_me::workflows::{try_bump, update_version};

#[test]
fn parse_well_formed_version() {
    let v = Version::parse("1.2.3").unwrap();
    assert_eq!(v, Version::new(1, 2, 3));
    let v = Version::parse("0.0.0").unwrap();
    assert_eq!(v, Version::new(0, 0, 0));
    let v = Version::parse("10.20.30").unwrap();
    assert_eq!(v, Version::new(10, 20, 30));
    let v = Version::parse("18446744073709551615.0.1").unwrap();
    assert_eq!(v, Version::new(u64::MAX, 0, 1));
}

#[test]
fn parse_rejects_malformed_versions() {
    for text in [
        "",
        "1",
        "1.2",
        "1.2.3.4",
        "1.2.x",
        "a.b.c",
        "1..3",
        ".2.3",
        "1.2.",
        "01.2.3",
        "1.02.3",
        "1.2.3-alpha",
        "1.2.3 ",
        "18446744073709551616.0.0",
    ] {
        let r = Version::parse(text);
        assert_eq!(r, Err(Error::InvalidVersion(text.to_string())), "input: {:?}", text);
    }
}

#[test]
fn render_is_canonical_text() {
    assert_eq!(Version::new(1, 2, 3).render(), b"1.2.3".to_vec());
    assert_eq!(Version::new(0, 0, 0).render(), b"0.0.0".to_vec());
    assert_eq!(
        Version::new(u64::MAX, 10, 0).render(),
        b"18446744073709551615.10.0".to_vec()
    );
}

#[test]
fn parse_of_render_round_trips() {
    for v in [
        Version::new(0, 0, 0),
        Version::new(1, 2, 3),
        Version::new(12, 0, 7),
        Version::new(u64::MAX, u64::MAX, u64::MAX),
    ] {
        let text = String::from_utf8(v.render()).unwrap();
        assert_eq!(Version::parse(&text).unwrap(), v);
    }
}

#[test]
fn update_version_bumps_each_component() {
    let mut v = Version::new(1, 2, 3);
    update_version(&mut v, &BumpMode::Patch);
    assert_eq!(v, Version::new(1, 2, 4));

    let mut v = Version::new(1, 2, 3);
    update_version(&mut v, &BumpMode::Minor);
    assert_eq!(v, Version::new(1, 3, 0));

    let mut v = Version::new(1, 2, 3);
    update_version(&mut v, &BumpMode::Major);
    assert_eq!(v, Version::new(2, 0, 0));

    let mut v = Version::new(1, 2, 3);
    update_version(&mut v, &BumpMode::Version("7.8.9".to_string()));
    assert_eq!(v, Version::new(7, 8, 9));
}

#[test]
fn try_bump_reports_what_cannot_bump() {
    let v = Version::new(1, 2, u64::MAX);
    assert_eq!(try_bump(&v, &BumpMode::Patch), None);
    assert_eq!(try_bump(&v, &BumpMode::Minor), Some(Version::new(1, 3, 0)));
    assert_eq!(try_bump(&v, &BumpMode::Version("x".to_string())), None);
    assert_eq!(
        try_bump(&v, &BumpMode::Version("4.5.6".to_string())),
        Some(Version::new(4, 5, 6))
    );
}

#[test]
fn error_messages_carry_context() {
    assert_eq!(
        Error::InvalidLanguage("Lisp".to_string()).message(),
        "Invalid Language: Lisp"
    );
    assert_eq!(
        Error::InvalidVersion("1.2".to_string()).message(),
        "Invalid Version: 1.2"
    );
    assert_eq!(Error::Unknown("boom".to_string()).message(), "Unknown Error: boom");
}
