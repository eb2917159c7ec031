use patch_release_me::config::{BumpMode, Config, LocationPattern};
use patch_release_me::error::Error;
use patch_release_me::matching::collect_captures;
use patch_release_me::resolve::{filter_excluded, is_excluded, join_path, resolve_paths};
use patch_release_me::rewrite::apply_captures;
use patch_release_me::workflows::{report_entries, Workflow, WorkflowMode};

fn compiled_location(patterns: &[&str]) -> LocationPattern {
    let loc = LocationPattern {
        name: "T".to_string(),
        patterns: patterns.iter().map(|p| p.to_string()).collect(),
        ..Default::default()
    };
    let workflow = Workflow::init().locations(vec![loc]).build();
    workflow.locations.into_iter().next().unwrap()
}

const SEMVER_GROUP: &str = "([0-9]+\\.[0-9]+\\.[0-9]+)";

#[test]
fn single_capture_round_trip() {
    let loc = compiled_location(&["version = \"([0-9]+\\.[0-9]+\\.[0-9]+)\""]);
    let content = "name = \"pkg\"\nversion = \"1.2.3\"\nedition = \"2021\"\n";
    let caps = collect_captures(&loc, content);
    assert_eq!(caps.len(), 1);
    assert_eq!(caps[0].text, b"1.2.3".to_vec());
    let out = apply_captures(content, caps, &BumpMode::Patch);
    assert_eq!(
        String::from_utf8(out).unwrap(),
        "name = \"pkg\"\nversion = \"1.2.4\"\nedition = \"2021\"\n"
    );
}

#[test]
fn multi_match_with_different_lengths() {
    let loc = compiled_location(&[SEMVER_GROUP]);
    let content = "x 1.2.3 y 10.0.0 z";
    let caps = collect_captures(&loc, content);
    assert_eq!(caps.len(), 2);
    let out = apply_captures(content, caps, &BumpMode::Major);
    // 1.2.3 -> 2.0.0 keeps its length, 10.0.0 -> 11.0.0 grows by one byte;
    // no unrelated byte may shift
    assert_eq!(String::from_utf8(out).unwrap(), "x 2.0.0 y 11.0.0 z");
}

#[test]
fn set_to_is_idempotent() {
    let loc = compiled_location(&["version = \"([0-9]+\\.[0-9]+\\.[0-9]+)\""]);
    let mode = BumpMode::Version("2.0.0".to_string());
    let content = "version = \"1.2.3\"\nversion = \"10.0.0\"\n";

    let caps = collect_captures(&loc, content);
    let once = String::from_utf8(apply_captures(content, caps, &mode)).unwrap();
    assert_eq!(once, "version = \"2.0.0\"\nversion = \"2.0.0\"\n");

    let caps2 = collect_captures(&loc, &once);
    let twice = String::from_utf8(apply_captures(&once, caps2, &mode)).unwrap();
    assert_eq!(twice, once);
}

#[test]
fn overlapping_capture_is_skipped() {
    let loc = compiled_location(&[SEMVER_GROUP, "1\\.([0-9]+)\\.3"]);
    let content = "1.2.3";
    let caps = collect_captures(&loc, content);
    assert_eq!(caps.len(), 2);
    let out = apply_captures(content, caps, &BumpMode::Version("9.9.9".to_string()));
    // the span of the second pattern lies inside the first capture and is
    // discovered later, so it is skipped
    assert_eq!(String::from_utf8(out).unwrap(), "9.9.9");
}

#[test]
fn unparseable_capture_is_left_unmodified() {
    let loc = compiled_location(&["x=([0-9]+)", "y=([0-9]+\\.[0-9]+\\.[0-9]+)"]);
    let content = "x=7 y=1.2.3";
    let caps = collect_captures(&loc, content);
    assert_eq!(caps.len(), 2);
    let out = apply_captures(content, caps, &BumpMode::Patch);
    assert_eq!(String::from_utf8(out).unwrap(), "x=7 y=1.2.4");
}

#[test]
fn no_captures_leaves_content_untouched() {
    let loc = compiled_location(&[SEMVER_GROUP]);
    let content = "nothing to see";
    let caps = collect_captures(&loc, content);
    assert!(caps.is_empty());
    let out = apply_captures(content, caps, &BumpMode::Patch);
    assert_eq!(String::from_utf8(out).unwrap(), content);
}

#[test]
fn report_shows_old_and_new() {
    let loc = compiled_location(&["version = \"([0-9]+\\.[0-9]+\\.[0-9]+)\""]);
    let content = "version = \"1.2.3\"";
    let caps = collect_captures(&loc, content);
    let path = "Cargo.toml".to_string();

    let entries = report_entries(&path, &caps, &WorkflowMode::Display);
    assert_eq!(entries.len(), 1);
    assert_eq!(entries[0].path, "Cargo.toml");
    assert_eq!(entries[0].start, 11);
    assert_eq!(entries[0].end, 16);
    assert_eq!(entries[0].old_text, b"1.2.3".to_vec());
    assert!(entries[0].new_text.is_none());

    let entries = report_entries(&path, &caps, &WorkflowMode::Bump(BumpMode::Minor));
    assert_eq!(entries[0].new_text, Some(b"1.3.0".to_vec()));
}

#[test]
fn exclude_filtering_drops_vendored_paths() {
    let excludes = vec!["/vendor/".to_string()];
    assert!(is_excluded(&"project/vendor/x.toml".to_string(), &excludes));
    assert!(!is_excluded(&"project/src/x.toml".to_string(), &excludes));

    let paths = vec![
        "project/vendor/x.toml".to_string(),
        "project/src/x.toml".to_string(),
        "project/vendor/deep/y.toml".to_string(),
    ];
    let kept = filter_excluded(paths, &excludes);
    assert_eq!(kept, vec!["project/src/x.toml".to_string()]);
}

#[test]
fn malformed_glob_fails_the_step() {
    let loc = LocationPattern {
        name: "L".to_string(),
        paths: vec!["[".to_string()],
        ..Default::default()
    };
    let r = resolve_paths(&".".to_string(), &loc);
    assert!(matches!(r, Err(Error::Unknown(_))));
}

#[test]
fn join_path_appends_below_root() {
    let full = join_path(&"/repo".to_string(), &"**/*.toml".to_string());
    assert_eq!(full, "/repo/**/*.toml");
}

#[test]
fn builder_defaults_and_setters() {
    let builder = Workflow::init();
    assert_eq!(builder.root, Some("./".to_string()));
    let workflow = Workflow::init()
        .root("/repo".to_string())
        .mode(WorkflowMode::Bump(BumpMode::Patch))
        .locations(vec![LocationPattern {
            name: "L".to_string(),
            patterns: vec![SEMVER_GROUP.to_string(), "broken(".to_string()],
            ..Default::default()
        }])
        .build();
    assert_eq!(workflow.root, "/repo");
    assert!(matches!(workflow.mode, WorkflowMode::Bump(BumpMode::Patch)));
    assert_eq!(workflow.locations.len(), 1);
    // one pattern compiled, the broken one dropped
    assert_eq!(workflow.locations[0].regexes.len(), 1);
    assert_eq!(workflow.locations[0].regexes[0].pattern_source(), SEMVER_GROUP);
}

#[test]
fn end_to_end_minor_bump_over_two_locations() {
    // a root holding a Cargo manifest and a Python package, both at 1.2.3
    let mut config = Config {
        default: Some(false),
        locations: vec![
            LocationPattern {
                name: "Rust Cargo".to_string(),
                paths: vec!["Cargo.toml".to_string()],
                patterns: vec!["version = \"{version}\"".to_string()],
                ..Default::default()
            },
            LocationPattern {
                name: "Python Init".to_string(),
                paths: vec!["pkg/__init__.py".to_string()],
                patterns: vec!["__version__ = \"{version}\"".to_string()],
                ..Default::default()
            },
        ],
        ..Default::default()
    };
    config.resolve(&Vec::new());
    let workflow = Workflow::init()
        .mode(WorkflowMode::Bump(BumpMode::Minor))
        .locations(config.locations)
        .build();

    let cargo_content = "name = \"pkg\"\nversion = \"1.2.3\"\n";
    let init_content = "__version__ = \"1.2.3\"\n";

    // report first: two entries, old 1.2.3, new 1.3.0
    let cargo_caps = collect_captures(&workflow.locations[0], cargo_content);
    let init_caps = collect_captures(&workflow.locations[1], init_content);
    let mode = WorkflowMode::Bump(BumpMode::Minor);
    let mut entries = report_entries(&"Cargo.toml".to_string(), &cargo_caps, &mode);
    entries.extend(report_entries(&"pkg/__init__.py".to_string(), &init_caps, &mode));
    assert_eq!(entries.len(), 2);
    for e in &entries {
        assert_eq!(e.old_text, b"1.2.3".to_vec());
        assert_eq!(e.new_text, Some(b"1.3.0".to_vec()));
    }

    // then apply
    let bump = BumpMode::Minor;
    let cargo_out = apply_captures(cargo_content, cargo_caps, &bump);
    let init_out = apply_captures(init_content, init_caps, &bump);
    assert_eq!(
        String::from_utf8(cargo_out).unwrap(),
        "name = \"pkg\"\nversion = \"1.3.0\"\n"
    );
    assert_eq!(
        String::from_utf8(init_out).unwrap(),
        "__version__ = \"1.3.0\"\n"
    );
}
