//! Expanding a location's path globs beneath the project root, and dropping
//! every path that an exclude substring matches.

use crate::config::LocationPattern;
use crate::error::Error;
use crate::text::{contains_substring, seq_contains};
use vstd::prelude::*;
use vstd::string::StringExecFns;

verus! {

/// A path is excluded when its string form contains any of the exclude
/// substrings literally.
pub open spec fn path_excluded(path: Seq<char>, excludes: Seq<String>) -> bool {
    exists|k: int| 0 <= k < excludes.len() && seq_contains(path, excludes[k]@)
}

/// Whether the path contains any of the exclude substrings.
pub fn is_excluded(path: &String, excludes: &Vec<String>) -> (r: bool)
    ensures
        r == path_excluded(path@, excludes@),
{
    let n = excludes.len();
    let mut k: usize = 0;
    while k < n
        invariant
            0 <= k <= n,
            n == excludes@.len(),
            forall|j: int| 0 <= j < k ==> !seq_contains(path@, excludes@[j]@),
        decreases n - k,
    {
        if contains_substring(path.as_str(), excludes[k].as_str()) {
            return true;
        }
        k += 1;
    }
    false
}

/// The paths that survive exclude filtering, in order.
pub open spec fn spec_filter_paths(paths: Seq<String>, excludes: Seq<String>) -> Seq<String>
    decreases paths.len(),
{
    if paths.len() == 0 {
        paths
    } else {
        let rest = spec_filter_paths(paths.drop_last(), excludes);
        if !path_excluded(paths.last()@, excludes) {
            rest.push(paths.last())
        } else {
            rest
        }
    }
}

/// Every path the filter keeps is free of exclude substrings.
pub proof fn lemma_filter_paths_clean(paths: Seq<String>, excludes: Seq<String>)
    ensures
        forall|k: int|
            0 <= k < spec_filter_paths(paths, excludes).len() ==> !path_excluded(
                (#[trigger] spec_filter_paths(paths, excludes)[k])@,
                excludes,
            ),
    decreases paths.len(),
{
    if paths.len() > 0 {
        lemma_filter_paths_clean(paths.drop_last(), excludes);
        let rest = spec_filter_paths(paths.drop_last(), excludes);
        if !path_excluded(paths.last()@, excludes) {
            assert forall|k: int|
                0 <= k < rest.push(paths.last()).len() implies !path_excluded(
                (#[trigger] rest.push(paths.last())[k])@,
                excludes,
            ) by {
                if k < rest.len() {
                    assert(rest.push(paths.last())[k] == rest[k]);
                }
            }
        }
    }
}

/// Keeps, in order, exactly the paths that no exclude substring matches.
pub fn filter_excluded(paths: Vec<String>, excludes: &Vec<String>) -> (r: Vec<String>)
    ensures
        r@ == spec_filter_paths(paths@, excludes@),
        forall|k: int| 0 <= k < r@.len() ==> !path_excluded((#[trigger] r@[k])@, excludes@),
{
    let mut out: Vec<String> = Vec::new();
    let rest = paths;
    let ghost orig = rest@;
    let mut i: usize = 0;
    let n = rest.len();
    proof {
        assert(spec_filter_paths(orig.take(0), excludes@) =~= out@);
    }
    while i < n
        invariant
            0 <= i <= n,
            n == orig.len(),
            rest@ == orig,
            out@ == spec_filter_paths(orig.take(i as int), excludes@),
        decreases n - i,
    {
        let keep = !is_excluded(&rest[i], excludes);
        if keep {
            out.push(rest[i].clone());
        }
        proof {
            assert(orig.take(i + 1).drop_last() =~= orig.take(i as int));
            assert(orig.take(i + 1).last() == orig[i as int]);
            assert(out@ == spec_filter_paths(orig.take(i + 1), excludes@));
        }
        i += 1;
    }
    proof {
        assert(orig.take(n as int) =~= orig);
        lemma_filter_paths_clean(orig, excludes@);
    }
    out
}

/// Relies on `glob::glob`: expands a glob pattern against the filesystem,
/// with `*`, `**` and `?`. What comes back depends on what is on disk, so
/// nothing is assumed of the result. An entry the walk cannot read is
/// skipped; a path that is not UTF-8 is carried over lossily. A malformed
/// pattern is the error case.
#[verifier::external_body]
fn glob_paths(pattern: &str) -> (r: Result<Vec<String>, Error>)
{
    match glob::glob(pattern) {
        Ok(paths) => {
            let mut out = Vec::new();
            for entry in paths {
                if let Ok(p) = entry {
                    out.push(p.to_string_lossy().into_owned());
                }
            }
            Ok(out)
        },
        Err(e) => Err(Error::Unknown(format!("{}", e))),
    }
}

/// Joins the project root and a relative glob with a `/` separator.
pub fn join_path(root: &String, path: &String) -> (r: String)
    ensures
        r@ == root@ + "/"@ + path@,
{
    root.clone().concat("/").concat(path.as_str())
}

/// Expands every path glob of the location beneath the root, dropping every
/// excluded path: no returned path contains an exclude substring. Order
/// within one glob follows filesystem enumeration and is not specified. A
/// malformed glob pattern fails the whole step.
pub fn resolve_paths(root: &String, location: &LocationPattern) -> (r: Result<Vec<String>, Error>)
    ensures
        r matches Ok(paths) ==> forall|k: int|
            0 <= k < paths@.len() ==> !path_excluded((#[trigger] paths@[k])@, location.excludes@),
{
    let mut out: Vec<String> = Vec::new();
    let n = location.paths.len();
    let mut i: usize = 0;
    while i < n
        invariant
            0 <= i <= n,
            n == location.paths@.len(),
            forall|k: int|
                0 <= k < out@.len() ==> !path_excluded((#[trigger] out@[k])@, location.excludes@),
        decreases n - i,
    {
        let full = join_path(root, &location.paths[i]);
        let entries = match glob_paths(full.as_str()) {
            Ok(e) => e,
            Err(e) => {
                return Err(e);
            },
        };
        let mut kept = filter_excluded(entries, &location.excludes);
        out.append(&mut kept);
        i += 1;
    }
    Ok(out)
}

} // verus!
