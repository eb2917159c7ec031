use patch_release_me::config::{build_placeholders, expand_pattern};
use patch_release_me::text::{contains_substring, find_char_in, replace_str};

#[test]
fn replace_is_leftmost_and_non_overlapping() {
    assert_eq!(replace_str("aaa", "aa", "b"), "ba");
    assert_eq!(replace_str("abcabc", "b", "xy"), "axycaxyc");
    assert_eq!(replace_str("abc", "z", "q"), "abc");
    assert_eq!(replace_str("", "z", "q"), "");
    assert_eq!(replace_str("{v}{v}", "{v}", ""), "");
}

#[test]
fn replace_handles_multibyte_characters() {
    assert_eq!(replace_str("caf\u{e9} x caf\u{e9}", "caf\u{e9}", "tea"), "tea x tea");
}

#[test]
fn contains_finds_substrings() {
    assert!(contains_substring("project/vendor/x.toml", "/vendor/"));
    assert!(!contains_substring("project/src/x.toml", "/vendor/"));
    assert!(contains_substring("anything", ""));
    assert!(contains_substring("h\u{e9}llo", "\u{e9}"));
    assert!(!contains_substring("ab", "abc"));
}

#[test]
fn find_char_gives_first_occurrence() {
    assert_eq!(find_char_in("owner/name", '/'), Some(5));
    assert_eq!(find_char_in("a/b/c", '/'), Some(1));
    assert_eq!(find_char_in("plain", '/'), None);
}

#[test]
fn placeholder_table_without_repository_has_five_entries() {
    let table = build_placeholders(&None);
    assert_eq!(table.len(), 5);
    assert_eq!(table[0].0, "{major}");
    assert_eq!(table[0].1, "([0-9]+)");

    let expanded = expand_pattern("version = \"{version}\"", &table);
    assert_eq!(expanded, "version = \"([0-9]+\\.[0-9]+\\.[0-9]+)\"");
}

#[test]
fn placeholder_table_with_repository_adds_case_insensitive_entries() {
    let table = build_placeholders(&Some("Org/Repo".to_string()));
    assert_eq!(table.len(), 9);
    let expanded = expand_pattern("owner = \"{owner}\"", &table);
    assert_eq!(expanded, "owner = \"(?i)Org(?-i)\"");
    let expanded = expand_pattern("repo = \"{repo}\"", &table);
    assert_eq!(expanded, "repo = \"(?i)Org/Repo(?-i)\"");
}
