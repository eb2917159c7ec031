//! The built-in catalog of location patterns, compiled and ready to scan.

use crate::config::{LocationPattern, LocationType};
use crate::matching::{compile_pattern, compiles, CompiledPattern};
use vstd::prelude::*;
use vstd::string::StringExecFns;

verus! {

/// Compiles one regex source into a one-element pattern list; an
/// uncompilable source yields an empty list instead of failing the catalog.
fn one_regex(pattern: &str) -> (r: Vec<CompiledPattern>)
    ensures
        r@.len() <= 1,
        r@.len() == 1 <==> compiles(pattern@),
        r@.len() == 1 ==> r@[0].source() == pattern@,
{
    let mut v: Vec<CompiledPattern> = Vec::new();
    match compile_pattern(pattern) {
        Some(cp) => {
            v.push(cp);
        },
        None => {},
    }
    v
}

/// One string as a vector.
fn one_string(s: &str) -> (r: Vec<String>)
    ensures
        r@.len() == 1,
        r@[0]@ == s@,
{
    let mut v: Vec<String> = Vec::new();
    v.push(String::from_str(s));
    v
}

/// The built-in location patterns: a release file, Cargo manifests, Python
/// project and package version lines, and npm package manifests. Each is
/// marked built-in, carries its path globs and exclude substrings, holds no
/// pattern sources (its regex ships compiled), and at most one compiled
/// pattern.
pub fn default_locations() -> (r: Vec<LocationPattern>)
    ensures
        r@.len() == 5,
        forall|k: int| 0 <= k < r@.len() ==> (#[trigger] r@[k]).default,
        forall|k: int| 0 <= k < r@.len() ==> (#[trigger] r@[k]).patterns@.len() == 0,
        forall|k: int| 0 <= k < r@.len() ==> (#[trigger] r@[k]).ecosystems@.len() == 0,
        forall|k: int| 0 <= k < r@.len() ==> (#[trigger] r@[k]).regexes@.len() <= 1,
        r@[0].name@ == "Release File"@,
        r@[0].paths@.len() == 1 && r@[0].paths@[0]@ == ".release.yml"@,
        r@[0].excludes@.len() == 0,
        r@[1].name@ == "Rust Cargo"@,
        r@[1].paths@.len() == 1 && r@[1].paths@[0]@ == "**/Cargo.toml"@,
        r@[1].excludes@.len() == 2 && r@[1].excludes@[0]@ == "/crates/"@ && r@[1].excludes@[1]@
            == "/target/"@,
        r@[2].name@ == "Python Pyproject"@,
        r@[2].paths@.len() == 1 && r@[2].paths@[0]@ == "pyproject.toml"@,
        r@[2].excludes@.len() == 0,
        r@[3].name@ == "Python Init / Version"@,
        r@[3].paths@.len() == 2 && r@[3].paths@[0]@ == "**/__init__.py"@ && r@[3].paths@[1]@
            == "**/__version__.py"@,
        r@[3].excludes@.len() == 2 && r@[3].excludes@[0]@ == "/__pycache__/"@
            && r@[3].excludes@[1]@ == "/vendor/"@,
        r@[4].name@ == "Node Package"@,
        r@[4].paths@.len() == 1 && r@[4].paths@[0]@ == "**/package.json"@,
        r@[4].excludes@.len() == 0,
{
    let mut out: Vec<LocationPattern> = Vec::new();
    out.push(
        LocationPattern {
            name: String::from_str("Release File"),
            location_type: LocationType::Version,
            default: true,
            ecosystems: Vec::new(),
            paths: one_string(".release.yml"),
            patterns: Vec::new(),
            excludes: Vec::new(),
            regexes: one_regex(r#"version:\s*\"?\'?([0-9]+\.[0-9]+\.[0-9])\"?\'?"#),
        },
    );
    let mut cargo_excludes = one_string("/crates/");
    cargo_excludes.push(String::from_str("/target/"));
    out.push(
        LocationPattern {
            name: String::from_str("Rust Cargo"),
            location_type: LocationType::Version,
            default: true,
            ecosystems: Vec::new(),
            paths: one_string("**/Cargo.toml"),
            patterns: Vec::new(),
            excludes: cargo_excludes,
            regexes: one_regex(r#"\nversion\s*=\s*"([0-9]+\.[0-9]+\.[0-9])""#),
        },
    );
    out.push(
        LocationPattern {
            name: String::from_str("Python Pyproject"),
            location_type: LocationType::Version,
            default: true,
            ecosystems: Vec::new(),
            paths: one_string("pyproject.toml"),
            patterns: Vec::new(),
            excludes: Vec::new(),
            regexes: one_regex(r#"\nversion\s*=\s*"([0-9]+\.[0-9]+\.[0-9])""#),
        },
    );
    let mut py_paths = one_string("**/__init__.py");
    py_paths.push(String::from_str("**/__version__.py"));
    let mut py_excludes = one_string("/__pycache__/");
    py_excludes.push(String::from_str("/vendor/"));
    out.push(
        LocationPattern {
            name: String::from_str("Python Init / Version"),
            location_type: LocationType::Version,
            default: true,
            ecosystems: Vec::new(),
            paths: py_paths,
            patterns: Vec::new(),
            excludes: py_excludes,
            regexes: one_regex(r#"__version__\s*=\s*["|']([0-9]+\.[0-9]+\.[0-9])["|']"#),
        },
    );
    out.push(
        LocationPattern {
            name: String::from_str("Node Package"),
            location_type: LocationType::Version,
            default: true,
            ecosystems: Vec::new(),
            paths: one_string("**/package.json"),
            patterns: Vec::new(),
            excludes: Vec::new(),
            regexes: one_regex(r#"\n"version"\s*:\s*"([0-9]+\.[0-9]+\.[0-9])""#),
        },
    );
    out
}

} // verus!
