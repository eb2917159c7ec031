use patch_release_me::config::{BumpMode, Config, LocationPattern};
use patch_release_me::defaults::Defaults;

#[test]
fn test_placeholder() {
    let mut config = Config {
        version: Some("1.2.3".to_string()),
        locations: vec![LocationPattern {
            name: "Cargo.toml".to_string(),
            paths: vec![String::from("Cargo.toml")],
            patterns: vec![
                "version = \"{version}\"".to_string(),
                "semver = \"{semver}\"".to_string(),
                "major = \"{major}\"".to_string(),
                "minor = \"{minor}\"".to_string(),
                "patch = \"{patch}\"".to_string(),
            ],
            ..Default::default()
        }],
        ..Default::default()
    };
    config.update_placeholders();

    let loc = &config.locations[0];
    assert_eq!(loc.patterns[0], "version = \"([0-9]+\\.[0-9]+\\.[0-9]+)\"");
    assert_eq!(loc.patterns[1], "semver = \"([0-9]+\\.[0-9]+\\.[0-9]+)\"");
    assert_eq!(loc.patterns[2], "major = \"([0-9]+)\"");
    assert_eq!(loc.patterns[3], "minor = \"([0-9]+\\.[0-9]+)\"");
    assert_eq!(loc.patterns[4], "patch = \"([0-9]+\\.[0-9]+\\.[0-9]+)\"");
}

#[test]
fn test_placeholder_repo() {
    let mut config = Config {
        version: Some("1.2.3".to_string()),
        repository: Some("42ByteLabs/patch-release-me".to_string()),
        locations: vec![LocationPattern {
            name: "Cargo.toml".to_string(),
            paths: vec![String::from("Cargo.toml")],
            patterns: vec![
                "repository = \"{repository}\"".to_string(),
                "owner = \"{owner}\"".to_string(),
                "name = \"{name}\"".to_string(),
            ],
            ..Default::default()
        }],
        ..Default::default()
    };
    config.update_placeholders();

    let loc = &config.locations[0];
    // All repo related placeholders should be replaced with the repo + case sensitive regex
    assert_eq!(
        loc.patterns[0],
        "repository = \"(?i)42ByteLabs/patch-release-me(?-i)\""
    );
    assert_eq!(loc.patterns[1], "owner = \"(?i)42ByteLabs(?-i)\"");
    assert_eq!(loc.patterns[2], "name = \"(?i)patch-release-me(?-i)\"");
}

#[test]
fn placeholder_repo_without_separator_falls_back_to_name() {
    let mut config = Config {
        repository: Some("monorepo".to_string()),
        locations: vec![LocationPattern {
            name: "L".to_string(),
            patterns: vec![
                "name = \"{name}\"".to_string(),
                "repo = \"{repo}\"".to_string(),
            ],
            ..Default::default()
        }],
        ..Default::default()
    };
    config.update_placeholders();
    let loc = &config.locations[0];
    assert_eq!(loc.patterns[0], "name = \"(?i)monorepo(?-i)\"");
    assert_eq!(loc.patterns[1], "repo = \"(?i)monorepo(?-i)\"");
}

#[test]
fn config_defaults() {
    let config = Config::default();
    assert!(config.use_default());
    assert_eq!(config.default, Some(true));
    assert!(config.name.is_none());
    assert!(config.locations.is_empty());

    let off = Config {
        default: Some(false),
        ..Default::default()
    };
    assert!(!off.use_default());
}

#[test]
fn bump_mode_from_label() {
    assert_eq!(BumpMode::from(&"patch".to_string()), BumpMode::Patch);
    assert_eq!(BumpMode::from(&"minor".to_string()), BumpMode::Minor);
    assert_eq!(BumpMode::from(&"major".to_string()), BumpMode::Major);
    assert_eq!(BumpMode::from(&"anything".to_string()), BumpMode::Patch);
}

fn builtin(name: &str, tags: &[&str]) -> LocationPattern {
    LocationPattern {
        name: name.to_string(),
        default: true,
        ecosystems: tags.iter().map(|t| t.to_string()).collect(),
        ..Default::default()
    }
}

#[test]
fn resolve_merges_all_builtins_without_selector() {
    let mut config = Config::default();
    let builtins = vec![builtin("Rust Cargo", &["Rust"]), builtin("Node Package", &["Node"])];
    config.resolve(&builtins);
    let names: Vec<&str> = config.locations.iter().map(|l| l.name.as_str()).collect();
    assert_eq!(names, vec!["Rust Cargo", "Node Package"]);
}

#[test]
fn resolve_without_selector_still_prefers_user_names() {
    let mut config = Config {
        locations: vec![LocationPattern {
            name: "Rust Cargo".to_string(),
            paths: vec!["Cargo.toml".to_string()],
            ..Default::default()
        }],
        ..Default::default()
    };
    let builtins = vec![builtin("Rust Cargo", &["Rust"]), builtin("Node Package", &["Node"])];
    config.resolve(&builtins);
    let names: Vec<&str> = config.locations.iter().map(|l| l.name.as_str()).collect();
    // the built-in carrying the user location's name is skipped
    assert_eq!(names, vec!["Rust Cargo", "Node Package"]);
    assert!(!config.locations[0].default);
    assert_eq!(config.locations[0].paths, vec!["Cargo.toml".to_string()]);
}

#[test]
fn resolve_filters_builtins_by_ecosystem() {
    let mut config = Config {
        ecosystem: Some("Rust".to_string()),
        ..Default::default()
    };
    let builtins = vec![
        builtin("Rust Cargo", &["Rust"]),
        builtin("Node Package", &["Node"]),
        builtin("Release File", &["All"]),
    ];
    config.resolve(&builtins);
    let names: Vec<&str> = config.locations.iter().map(|l| l.name.as_str()).collect();
    assert_eq!(names, vec!["Rust Cargo", "Release File"]);
}

#[test]
fn resolve_keeps_user_location_over_builtin_of_same_name() {
    let mut config = Config {
        ecosystems: vec!["Rust".to_string()],
        locations: vec![LocationPattern {
            name: "Rust Cargo".to_string(),
            paths: vec!["Cargo.toml".to_string()],
            ..Default::default()
        }],
        ..Default::default()
    };
    let builtins = vec![builtin("Rust Cargo", &["Rust"])];
    config.resolve(&builtins);
    assert_eq!(config.locations.len(), 1);
    assert!(!config.locations[0].default);
    assert_eq!(config.locations[0].paths, vec!["Cargo.toml".to_string()]);
}

#[test]
fn resolve_appends_global_excludes_everywhere() {
    let mut config = Config {
        excludes: vec!["/dist/".to_string()],
        locations: vec![LocationPattern {
            name: "L".to_string(),
            excludes: vec!["/vendor/".to_string()],
            ..Default::default()
        }],
        default: Some(false),
        ..Default::default()
    };
    config.resolve(&Vec::new());
    assert_eq!(
        config.locations[0].excludes,
        vec!["/vendor/".to_string(), "/dist/".to_string()]
    );
}

#[test]
fn label_marks_builtins() {
    let mut l = LocationPattern::default();
    l.name = "Rust Cargo".to_string();
    assert_eq!(l.label(), "Rust Cargo");
    l.default = true;
    assert_eq!(l.label(), "Default - Rust Cargo");
}

#[test]
fn regexes_drop_bad_patterns() {
    let patterns = vec![
        "version = \"([0-9]+)\"".to_string(),
        "broken(".to_string(),
        "no group here".to_string(),
        "two (a) groups (b)".to_string(),
    ];
    let compiled = LocationPattern::regexes(&patterns);
    // the unparseable pattern and the ones without exactly one group are dropped
    assert_eq!(compiled.len(), 1);
    assert_eq!(compiled[0].pattern_source(), "version = \"([0-9]+)\"");
}

#[test]
fn regexes_keep_every_valid_pattern_in_order() {
    let patterns = vec![
        "a = \"([0-9]+)\"".to_string(),
        "b = \"([0-9]+\\.[0-9]+)\"".to_string(),
    ];
    let compiled = LocationPattern::regexes(&patterns);
    assert_eq!(compiled.len(), patterns.len());
    for (cp, p) in compiled.iter().zip(patterns.iter()) {
        assert_eq!(cp.pattern_source(), p);
    }
}

#[test]
fn defaults_catalog_lists_five_locations() {
    let locations = patch_release_me::default_locations::default_locations();
    assert_eq!(locations.len(), 5);
    assert!(locations.iter().all(|l| l.default));
    let names: Vec<&str> = locations.iter().map(|l| l.name.as_str()).collect();
    assert_eq!(
        names,
        vec![
            "Release File",
            "Rust Cargo",
            "Python Pyproject",
            "Python Init / Version",
            "Node Package"
        ]
    );
}

#[test]
fn defaults_select_by_tag_or_wildcard_tag() {
    let defaults = Defaults {
        ecosystems: vec![
            ("Rust".to_string(), vec!["Rust".to_string()]),
            ("Python".to_string(), vec!["Python".to_string()]),
        ],
        locations: vec![
            builtin("Rust Cargo", &["Rust"]),
            builtin("Node Package", &["Node"]),
            builtin("Release File", &["All"]),
        ],
    };
    // the wildcard tag `All` always matches
    let selected = defaults.get_locations(&"Rust".to_string());
    let names: Vec<&str> = selected.iter().map(|l| l.name.as_str()).collect();
    assert_eq!(names, vec!["Rust Cargo", "Release File"]);

    let languages = defaults.get_languages();
    assert_eq!(languages, vec!["Rust".to_string(), "Python".to_string()]);
}
