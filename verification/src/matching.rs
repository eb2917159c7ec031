//! Compiling patterns and running them over file contents. The regex engine
//! is deterministic in the pattern source and the haystack, so its outcomes
//! are named: `compiles`, `group_count` and `captures_of` stand for what the
//! engine does with a given source, and every compiled pattern carries the
//! source it was compiled from, tying those names to the values at hand.

use crate::config::LocationPattern;
use vstd::prelude::*;
use vstd::string::StringSliceAdditionalSpecFns;

verus! {

/// `regex::Regex` is opaque to the verifier: values of it are only created
/// and used through the trusted wrappers in this module.
#[verifier::external_type_specification]
#[verifier::external_body]
pub struct ExRegex(regex::Regex);

/// Whether the regex engine accepts this pattern source.
pub uninterp spec fn compiles(pattern: Seq<char>) -> bool;

/// The number of capture groups of a compiled pattern, counting the implicit
/// group 0 for the whole match.
pub uninterp spec fn group_count(pattern: Seq<char>) -> nat;

/// The captures group 1 yields when this pattern scans this content: for
/// each match, the byte span and the spanned text.
pub uninterp spec fn captures_of(pattern: Seq<char>, content: Seq<u8>) -> Seq<
    (int, int, Seq<u8>),
>;

/// A compiled pattern together with the source it was compiled from. Only
/// this module constructs values, so the pairing always holds; the contracts
/// of the wrappers below speak of the source.
#[derive(Debug, Clone)]
pub struct CompiledPattern {
    source: String,
    regex: regex::Regex,
}

/// Relies on `Clone` for `regex::Regex`: yields a regex for the same
/// pattern. The value is opaque, so nothing is assumed of it.
pub assume_specification[ <regex::Regex as Clone>::clone ](re: &regex::Regex) -> (r: regex::Regex);

impl CompiledPattern {
    /// The pattern source this value was compiled from.
    pub closed spec fn source(&self) -> Seq<char> {
        self.source@
    }

    /// The pattern source, for display and diagnostics.
    pub fn pattern_source(&self) -> (r: &str)
        ensures
            r@ == self.source(),
    {
        self.source.as_str()
    }

    /// Copies the compiled pattern; the copy is compiled from the same
    /// source.
    pub fn duplicate(&self) -> (r: CompiledPattern)
        ensures
            r.source() == self.source(),
    {
        CompiledPattern { source: self.source.clone(), regex: self.regex.clone() }
    }
}

/// The sources of a list of compiled patterns.
pub open spec fn sources_of(s: Seq<CompiledPattern>) -> Seq<Seq<char>> {
    s.map_values(|cp: CompiledPattern| cp.source())
}

/// The sources of a pushed list are the pushed sources.
pub proof fn lemma_sources_push(s: Seq<CompiledPattern>, x: CompiledPattern)
    ensures
        sources_of(s.push(x)) =~= sources_of(s).push(x.source()),
{
    assert forall|j: int| 0 <= j < s.len() + 1 implies sources_of(s.push(x))[j] == sources_of(
        s,
    ).push(x.source())[j] by {
        if j < s.len() {
            assert(s.push(x)[j] == s[j]);
        } else {
            assert(s.push(x)[j] == x);
        }
    }
}

/// Relies on `regex::Regex::new`: compiles a pattern source, or reports a
/// syntax or size error; it never panics. Success is named `compiles`, and
/// the returned value carries the source it was compiled from.
#[verifier::external_body]
pub(crate) fn compile_pattern(pattern: &str) -> (r: Option<CompiledPattern>)
    ensures
        r is Some <==> compiles(pattern@),
        r matches Some(cp) ==> cp.source() == pattern@,
{
    match regex::Regex::new(pattern) {
        Ok(re) => Some(CompiledPattern { source: pattern.to_string(), regex: re }),
        Err(_) => None,
    }
}

/// Relies on `regex::Regex::captures_len`: the number of capture groups,
/// counting the implicit group 0 — a function of the pattern alone, named
/// `group_count`. Used to flag patterns whose group count is not exactly one
/// as configuration defects.
#[verifier::external_body]
pub(crate) fn compiled_group_count(cp: &CompiledPattern) -> (r: usize)
    ensures
        r as nat == group_count(cp.source()),
{
    cp.regex.captures_len()
}

/// One matched occurrence of a version-shaped substring: the byte span of
/// the capturing group within the scanned content, and the spanned text.
/// Produced per scan, never persisted.
#[derive(Debug)]
pub struct Capture {
    /// Byte offset of the first byte of the captured text.
    pub start: usize,
    /// Byte offset just past the captured text.
    pub end: usize,
    /// The captured text itself.
    pub text: Vec<u8>,
}

/// A structurally valid capture for content `c`: the span lies within the
/// content and the text is exactly the spanned bytes.
pub open spec fn capture_valid(c: Seq<u8>, cap: Capture) -> bool {
    &&& cap.start <= cap.end <= c.len()
    &&& cap.text@ == c.subrange(cap.start as int, cap.end as int)
}

/// The model of a capture list: spans and texts.
pub open spec fn caps_model(s: Seq<Capture>) -> Seq<(int, int, Seq<u8>)> {
    s.map_values(|c: Capture| (c.start as int, c.end as int, c.text@))
}

/// Relies on `regex::Regex::captures_iter` and `regex::Captures::get`: what
/// comes back is a function of the pattern source and the haystack alone,
/// named `captures_of`. Successive matches are non-overlapping and in
/// haystack order; `Match::start`/`Match::end` are byte offsets into the
/// haystack with `start <= end <= len`, and `Match::as_str` is exactly the
/// spanned bytes; the span of group 1 lies within its match's span. A match
/// in which group 1 did not participate is skipped, as a configuration
/// defect.
#[verifier::external_body]
pub(crate) fn compiled_captures(cp: &CompiledPattern, content: &str) -> (r: Vec<Capture>)
    ensures
        caps_model(r@) == captures_of(cp.source(), content.spec_bytes()),
        forall|i: int|
            0 <= i < r@.len() ==> capture_valid(content.spec_bytes(), #[trigger] r@[i]),
        forall|i: int, j: int| 0 <= i < j < r@.len() ==> r@[i].end <= r@[j].start,
{
    let mut out = Vec::new();
    for caps in cp.regex.captures_iter(content) {
        if let Some(m) = caps.get(1) {
            out.push(Capture { start: m.start(), end: m.end(), text: m.as_str().as_bytes().to_vec() });
        }
    }
    out
}

/// The captures of a list of compiled patterns over one content, pattern by
/// pattern, concatenated in order.
pub open spec fn collected(ps: Seq<CompiledPattern>, content: Seq<u8>) -> Seq<(int, int, Seq<u8>)>
    decreases ps.len(),
{
    if ps.len() == 0 {
        Seq::empty()
    } else {
        collected(ps.drop_last(), content) + captures_of(ps.last().source(), content)
    }
}

/// Runs every compiled pattern of the location against the content and
/// gathers all captures, in discovery order: all matches of the first
/// pattern, then all of the second, and so on.
pub fn collect_captures(location: &LocationPattern, content: &str) -> (r: Vec<Capture>)
    ensures
        caps_model(r@) == collected(location.regexes@, content.spec_bytes()),
        forall|i: int|
            0 <= i < r@.len() ==> capture_valid(content.spec_bytes(), #[trigger] r@[i]),
{
    let ghost cbytes = content.spec_bytes();
    let mut out: Vec<Capture> = Vec::new();
    let n = location.regexes.len();
    let mut k: usize = 0;
    proof {
        assert(caps_model(out@) =~= collected(location.regexes@.take(0), cbytes));
    }
    while k < n
        invariant
            0 <= k <= n,
            n == location.regexes@.len(),
            cbytes == content.spec_bytes(),
            caps_model(out@) == collected(location.regexes@.take(k as int), cbytes),
            forall|i: int|
                0 <= i < out@.len() ==> capture_valid(cbytes, #[trigger] out@[i]),
        decreases n - k,
    {
        let ghost out0 = out@;
        let mut found = compiled_captures(&location.regexes[k], content);
        let ghost found0 = found@;
        out.append(&mut found);
        proof {
            let ps = location.regexes@;
            assert(ps.take(k + 1).drop_last() =~= ps.take(k as int));
            assert(ps.take(k + 1).last() == ps[k as int]);
            assert(caps_model(out0 + found0) =~= caps_model(out0) + caps_model(found0));
            assert(caps_model(out@) =~= collected(ps.take(k + 1), cbytes));
        }
        k += 1;
    }
    proof {
        assert(location.regexes@.take(n as int) =~= location.regexes@);
    }
    out
}

} // verus!
