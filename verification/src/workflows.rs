//! Deriving a new version from a bump policy, and the workflow value that
//! carries a project root, a mode and the locations to scan.

use crate::config::{BumpMode, LocationPattern};
use crate::matching::Capture;
use crate::rewrite::{clone_bytes, compute_new_text, spec_new_text};
use crate::version::{spec_parse_version, version_lt, Version};
use vstd::prelude::*;
use vstd::string::StringExecFns;
use vstd::string::StringSliceAdditionalSpecFns;
use vstd::utf8::encode_utf8;

verus! {

/// What a run does: rewrite files under a bump policy, or only display what
/// was found.
#[derive(Debug, Clone)]
pub enum WorkflowMode {
    /// Rewrite every matched span under this bump policy.
    Bump(BumpMode),
    /// Report matches without touching any file.
    Display,
}

/// Whether deriving a new version from `v` under `m` can succeed: the
/// incremented component must not exceed `u64`, and an explicit version text
/// must parse.
pub open spec fn bump_in_range(v: Version, m: BumpMode) -> bool {
    match m {
        BumpMode::Patch => v.patch < u64::MAX,
        BumpMode::Minor => v.minor < u64::MAX,
        BumpMode::Major => v.major < u64::MAX,
        BumpMode::Version(s) => spec_parse_version(encode_utf8(s@)) is Some,
    }
}

/// The version derived from `v` under policy `m`: `Patch` increments patch;
/// `Minor` increments minor and resets patch; `Major` increments major and
/// resets minor and patch; an explicit version is taken verbatim.
pub open spec fn spec_bump(v: Version, m: BumpMode) -> Version
    recommends
        bump_in_range(v, m),
{
    match m {
        BumpMode::Patch => Version { major: v.major, minor: v.minor, patch: (v.patch + 1) as u64 },
        BumpMode::Minor => Version { major: v.major, minor: (v.minor + 1) as u64, patch: 0 },
        BumpMode::Major => Version { major: (v.major + 1) as u64, minor: 0, patch: 0 },
        BumpMode::Version(s) => spec_parse_version(encode_utf8(s@)).unwrap(),
    }
}

/// Applies the bump policy to `version` in place.
pub fn update_version(version: &mut Version, bump_mode: &BumpMode)
    requires
        bump_in_range(*old(version), *bump_mode),
    ensures
        *final (version) == spec_bump(*old(version), *bump_mode),
{
    match bump_mode {
        BumpMode::Patch => {
            version.patch = version.patch + 1;
        },
        BumpMode::Minor => {
            version.minor = version.minor + 1;
            version.patch = 0;
        },
        BumpMode::Major => {
            version.major = version.major + 1;
            version.minor = 0;
            version.patch = 0;
        },
        BumpMode::Version(s) => {
            match Version::parse(s.as_str()) {
                Ok(v) => {
                    *version = v;
                },
                Err(_) => {},
            }
        },
    }
}

/// Applies the bump policy to a copy of `version`; `None` exactly when the
/// bump cannot succeed (component overflow, or explicit text that does not
/// parse).
pub fn try_bump(version: &Version, bump_mode: &BumpMode) -> (r: Option<Version>)
    ensures
        r is Some <==> bump_in_range(*version, *bump_mode),
        r is Some ==> r.unwrap() == spec_bump(*version, *bump_mode),
{
    match bump_mode {
        BumpMode::Patch => {
            if version.patch < u64::MAX {
                Some(Version { major: version.major, minor: version.minor, patch: version.patch + 1 })
            } else {
                None
            }
        },
        BumpMode::Minor => {
            if version.minor < u64::MAX {
                Some(Version { major: version.major, minor: version.minor + 1, patch: 0 })
            } else {
                None
            }
        },
        BumpMode::Major => {
            if version.major < u64::MAX {
                Some(Version { major: version.major + 1, minor: 0, patch: 0 })
            } else {
                None
            }
        },
        BumpMode::Version(s) => {
            match Version::parse(s.as_str()) {
                Ok(v) => Some(v),
                Err(_) => None,
            }
        },
    }
}

/// One reported occurrence: where a version string was found, its text, and
/// the text it would be (or was) rewritten to, when the mode derives one.
#[derive(Debug)]
pub struct ReportEntry {
    /// The file the occurrence lies in.
    pub path: String,
    /// Byte offset of the first byte of the occurrence.
    pub start: usize,
    /// Byte offset just past the occurrence.
    pub end: usize,
    /// The matched text.
    pub old_text: Vec<u8>,
    /// The derived new text; `None` in display mode, and for spans that do
    /// not parse or whose bump cannot succeed.
    pub new_text: Option<Vec<u8>>,
}

/// Builds one report entry per capture, in discovery order, without touching
/// any file: display mode reports only what was found, bump mode also the
/// version each span would become.
pub fn report_entries(path: &String, caps: &Vec<Capture>, mode: &WorkflowMode) -> (r: Vec<
    ReportEntry,
>)
    ensures
        r@.len() == caps@.len(),
        forall|k: int|
            0 <= k < caps@.len() ==> {
                let e = #[trigger] r@[k];
                &&& e.path@ == path@
                &&& e.start == caps@[k].start
                &&& e.end == caps@[k].end
                &&& e.old_text@ == caps@[k].text@
                &&& match *mode {
                    WorkflowMode::Display => e.new_text is None,
                    WorkflowMode::Bump(m) => match spec_new_text(caps@[k].text@, m) {
                        Some(t) => e.new_text matches Some(nt) && nt@ == t,
                        None => e.new_text is None,
                    },
                }
            },
{
    let mut r: Vec<ReportEntry> = Vec::new();
    let n = caps.len();
    let mut k: usize = 0;
    while k < n
        invariant
            0 <= k <= n,
            n == caps@.len(),
            r@.len() == k,
            forall|j: int|
                0 <= j < k ==> {
                    let e = #[trigger] r@[j];
                    &&& e.path@ == path@
                    &&& e.start == caps@[j].start
                    &&& e.end == caps@[j].end
                    &&& e.old_text@ == caps@[j].text@
                    &&& match *mode {
                        WorkflowMode::Display => e.new_text is None,
                        WorkflowMode::Bump(m) => match spec_new_text(caps@[j].text@, m) {
                            Some(t) => e.new_text matches Some(nt) && nt@ == t,
                            None => e.new_text is None,
                        },
                    }
                },
        decreases n - k,
    {
        let new_text: Option<Vec<u8>> = match mode {
            WorkflowMode::Display => None,
            WorkflowMode::Bump(m) => compute_new_text(&caps[k].text, m),
        };
        let entry = ReportEntry {
            path: path.clone(),
            start: caps[k].start,
            end: caps[k].end,
            old_text: clone_bytes(&caps[k].text),
            new_text,
        };
        r.push(entry);
        k += 1;
    }
    r
}

/// A planned run: the project root, what to do, and where to look.
#[derive(Debug, Clone)]
pub struct Workflow {
    /// Project root; path globs are resolved beneath it.
    pub root: String,
    /// Whether the run rewrites files or only reports.
    pub mode: WorkflowMode,
    /// The locations to scan, with their compiled patterns.
    pub locations: Vec<LocationPattern>,
}

impl Workflow {
    /// Starts building a workflow.
    pub fn init() -> (r: WorkflowBuilder)
        ensures
            r.root matches Some(s) && s@ == "./"@,
            r.mode matches Some(m) && m is Display,
            r.locations@.len() == 0,
    {
        WorkflowBuilder::default()
    }
}

/// Builder for a `Workflow`; every field starts with a usable default.
#[derive(Debug, Clone)]
pub struct WorkflowBuilder {
    /// Project root to use; defaults to the current directory.
    pub root: Option<String>,
    /// Mode to run in; defaults to display.
    pub mode: Option<WorkflowMode>,
    /// Locations gathered so far.
    pub locations: Vec<LocationPattern>,
}

impl Default for WorkflowBuilder {
    fn default() -> (r: WorkflowBuilder)
        ensures
            r.root matches Some(s) && s@ == "./"@,
            r.mode matches Some(m) && m is Display,
            r.locations@.len() == 0,
    {
        WorkflowBuilder {
            root: Some(String::from_str("./")),
            mode: Some(WorkflowMode::Display),
            locations: Vec::new(),
        }
    }
}

/// Relates a location handed to the builder with the one the workflow keeps:
/// every declarative field is the same, and patterns were compiled only when
/// none were compiled yet.
pub open spec fn loc_compiled_from(src: LocationPattern, dst: LocationPattern) -> bool {
    &&& dst.name == src.name
    &&& dst.default == src.default
    &&& dst.ecosystems@ == src.ecosystems@
    &&& dst.paths@ == src.paths@
    &&& dst.patterns@ == src.patterns@
    &&& dst.excludes@ == src.excludes@
    &&& src.regexes@.len() > 0 ==> dst.regexes@ == src.regexes@
    &&& src.regexes@.len() == 0 ==> crate::matching::sources_of(dst.regexes@)
        == crate::config::kept_sources(crate::config::strings_view(src.patterns@))
}

impl WorkflowBuilder {
    /// Sets the project root.
    pub fn root(self, root: String) -> (r: WorkflowBuilder)
        ensures
            r.root matches Some(s) && s == root,
            r.mode == self.mode,
            r.locations@ == self.locations@,
    {
        WorkflowBuilder { root: Some(root), mode: self.mode, locations: self.locations }
    }

    /// Sets the mode.
    pub fn mode(self, mode: WorkflowMode) -> (r: WorkflowBuilder)
        ensures
            r.root == self.root,
            r.mode == Some(mode),
            r.locations@ == self.locations@,
    {
        WorkflowBuilder { root: self.root, mode: Some(mode), locations: self.locations }
    }

    /// Appends locations, compiling the patterns of each location that does
    /// not carry compiled ones yet. Patterns that fail to compile, and
    /// patterns whose capture-group count is not exactly one, are dropped.
    pub fn locations(self, locations: Vec<LocationPattern>) -> (r: WorkflowBuilder)
        ensures
            r.root == self.root,
            r.mode == self.mode,
            r.locations@.len() == self.locations@.len() + locations@.len(),
            forall|k: int|
                0 <= k < self.locations@.len() ==> r.locations@[k] == self.locations@[k],
            forall|k: int|
                0 <= k < locations@.len() ==> loc_compiled_from(
                    #[trigger] locations@[k],
                    r.locations@[self.locations@.len() + k],
                ),
    {
        let ghost input = locations@;
        let ghost base = self.locations@;
        let mut out = self.locations;
        let mut rest = locations;
        proof {
            assert(rest@ =~= input.skip(0));
        }
        while rest.len() > 0
            invariant
                rest@.len() <= input.len(),
                rest@ =~= input.skip(input.len() - rest@.len()),
                out@.len() == base.len() + (input.len() - rest@.len()),
                forall|k: int| 0 <= k < base.len() ==> out@[k] == base[k],
                forall|k: int|
                    0 <= k < input.len() - rest@.len() ==> loc_compiled_from(
                        #[trigger] input[k],
                        out@[base.len() + k],
                    ),
            decreases rest@.len(),
        {
            let ghost rest0 = rest@;
            let ghost idx = input.len() - rest0.len();
            let mut loc = rest.remove(0);
            proof {
                assert(rest@ =~= rest0.drop_first());
                assert(rest0 == input.skip(idx));
                assert(rest0[0] == input.skip(idx)[0]);
                assert(input.skip(idx)[0] == input[idx]);
                assert(rest@ =~= input.skip(idx + 1));
            }
            if loc.regexes.is_empty() {
                let compiled = LocationPattern::regexes(&loc.patterns);
                loc.regexes = compiled;
            }
            out.push(loc);
        }
        proof {
            assert(rest@.len() == 0);
        }
        WorkflowBuilder { root: self.root, mode: self.mode, locations: out }
    }

    /// Finishes the build. The builder starts with a root and a mode, and
    /// the setters keep them, so both are present.
    pub fn build(self) -> (r: Workflow)
        requires
            self.root is Some,
            self.mode is Some,
        ensures
            r.root == self.root.unwrap(),
            r.mode == self.mode.unwrap(),
            r.locations@ == self.locations@,
    {
        let root = match self.root {
            Some(x) => x,
            None => String::new(),
        };
        let mode = match self.mode {
            Some(x) => x,
            None => WorkflowMode::Display,
        };
        Workflow { root, mode, locations: self.locations }
    }
}

/// Bumping by `Patch`, `Minor` or `Major` strictly increases the version
/// under the lexicographic order on (major, minor, patch).
pub proof fn lemma_bump_increases(v: Version, m: BumpMode)
    requires
        !(m is Version),
        bump_in_range(v, m),
    ensures
        version_lt(v, spec_bump(v, m)),
{
}

/// Bumping with an explicit version gives exactly that version, whatever the
/// current version was.
pub proof fn lemma_bump_set_to(v: Version, s: String, w: Version)
    requires
        spec_parse_version(encode_utf8(s@)) == Some(w),
    ensures
        bump_in_range(v, BumpMode::Version(s)),
        spec_bump(v, BumpMode::Version(s)) == w,
{
}

} // verus!
