//! Configuration settings: the bump policy, the location patterns that say
//! where version strings live, and the merge of user patterns with the
//! built-in catalog.

use crate::matching::{compiles, group_count, sources_of, CompiledPattern};
use crate::text::{find_char, spec_replace};
use vstd::prelude::*;
use vstd::std_specs::convert::FromSpecImpl;
use vstd::string::StrSliceExecFns;
use vstd::string::StringExecFns;

verus! {

/// Bump mode for the version.
#[derive(Debug, Clone, PartialEq, Eq)]
pub enum BumpMode {
    /// Patch version (x.y.Z -> x.y.Z+1).
    Patch,
    /// Minor version (x.Y.z -> x.Y+1.0).
    Minor,
    /// Major version (X.y.z -> X+1.0.0).
    Major,
    /// Set the version to the given version text.
    Version(String),
}

/// The bump mode a textual label denotes; unknown labels mean `Patch`.
pub open spec fn spec_bump_mode_of_label(s: Seq<char>) -> BumpMode {
    if s == "patch"@ {
        BumpMode::Patch
    } else if s == "minor"@ {
        BumpMode::Minor
    } else if s == "major"@ {
        BumpMode::Major
    } else {
        BumpMode::Patch
    }
}

impl From<&String> for BumpMode {
    fn from(s: &String) -> (r: BumpMode) {
        if *s == String::from_str("patch") {
            BumpMode::Patch
        } else if *s == String::from_str("minor") {
            BumpMode::Minor
        } else if *s == String::from_str("major") {
            BumpMode::Major
        } else {
            BumpMode::Patch
        }
    }
}

impl FromSpecImpl<&String> for BumpMode {
    open spec fn obeys_from_spec() -> bool {
        true
    }

    open spec fn from_spec(s: &String) -> BumpMode {
        spec_bump_mode_of_label(s@)
    }
}

/// Type of a location.
#[derive(Debug, Clone)]
pub enum LocationType {
    /// A place where a version string lives.
    Version,
}

impl Default for LocationType {
    fn default() -> (r: LocationType)
        ensures
            r is Version,
    {
        LocationType::Version
    }
}

/// A location pattern: path globs to find files, and regex patterns whose
/// single capturing group matches a version-shaped substring in them.
#[derive(Debug, Clone)]
pub struct LocationPattern {
    /// Name of the location pattern; also the key when merging with the
    /// built-in catalog.
    pub name: String,
    /// Type of the location.
    pub location_type: LocationType,
    /// Whether this pattern originated from the built-in catalog.
    pub default: bool,
    /// Ecosystem tags, used only while filtering the built-in catalog.
    pub ecosystems: Vec<String>,
    /// Path globs to match, relative to the project root.
    pub paths: Vec<String>,
    /// Regex source patterns; placeholders are expanded before compilation.
    pub patterns: Vec<String>,
    /// A resolved path containing any of these literal substrings is skipped.
    pub excludes: Vec<String>,
    /// Compiled patterns, derived from `patterns`; never persisted.
    pub regexes: Vec<CompiledPattern>,
}

impl Default for LocationPattern {
    fn default() -> (r: LocationPattern)
        ensures
            r.name@ == Seq::<char>::empty(),
            r.location_type is Version,
            r.default == false,
            r.ecosystems@ == Seq::<String>::empty(),
            r.paths@ == Seq::<String>::empty(),
            r.patterns@ == Seq::<String>::empty(),
            r.excludes@ == Seq::<String>::empty(),
            r.regexes@.len() == 0,
    {
        LocationPattern {
            name: String::new(),
            location_type: LocationType::Version,
            default: false,
            ecosystems: Vec::new(),
            paths: Vec::new(),
            patterns: Vec::new(),
            excludes: Vec::new(),
            regexes: Vec::new(),
        }
    }
}

/// Configuration settings.
#[derive(Debug, Clone)]
pub struct Config {
    /// Name of the project.
    pub name: Option<String>,
    /// Repository of the project, `owner/name` or `name`.
    pub repository: Option<String>,
    /// Version to set.
    pub version: Option<String>,
    /// Whether built-in default locations should be used.
    pub default: Option<bool>,
    /// Single ecosystem selector for the project.
    pub ecosystem: Option<String>,
    /// Ecosystem selectors used in the project.
    pub ecosystems: Vec<String>,
    /// Global exclude substrings, appended to every location.
    pub excludes: Vec<String>,
    /// Locations in which versions are updated.
    pub locations: Vec<LocationPattern>,
}

impl Default for Config {
    fn default() -> (r: Config)
        ensures
            r.name is None,
            r.repository is None,
            r.version is None,
            r.default == Some(true),
            r.ecosystem is None,
            r.ecosystems@ == Seq::<String>::empty(),
            r.excludes@ == Seq::<String>::empty(),
            r.locations@ == Seq::<LocationPattern>::empty(),
    {
        Config {
            name: None,
            repository: None,
            version: None,
            default: Some(true),
            ecosystem: None,
            ecosystems: Vec::new(),
            excludes: Vec::new(),
            locations: Vec::new(),
        }
    }
}

/// The mathematical model of a location pattern: its declarative fields as
/// sequences, and each compiled pattern as the source it was compiled from.
pub struct LocationPatternView {
    /// Name, the merge key.
    pub name: Seq<char>,
    /// Whether the pattern originated from the built-in catalog.
    pub default: bool,
    /// Ecosystem tags.
    pub ecosystems: Seq<Seq<char>>,
    /// Path globs.
    pub paths: Seq<Seq<char>>,
    /// Regex source patterns.
    pub patterns: Seq<Seq<char>>,
    /// Exclude substrings.
    pub excludes: Seq<Seq<char>>,
    /// The sources of the compiled patterns the location carries.
    pub regexes: Seq<Seq<char>>,
}

/// The char views of a sequence of strings.
pub open spec fn strings_view(s: Seq<String>) -> Seq<Seq<char>> {
    s.map_values(|x: String| x@)
}

/// The model of one location pattern.
pub open spec fn loc_view(l: LocationPattern) -> LocationPatternView {
    LocationPatternView {
        name: l.name@,
        default: l.default,
        ecosystems: strings_view(l.ecosystems@),
        paths: strings_view(l.paths@),
        patterns: strings_view(l.patterns@),
        excludes: strings_view(l.excludes@),
        regexes: sources_of(l.regexes@),
    }
}

/// The model of a list of location patterns.
pub open spec fn locs_view(s: Seq<LocationPattern>) -> Seq<LocationPatternView> {
    s.map_values(|l: LocationPattern| loc_view(l))
}

/// The char view of an optional repository string.
pub open spec fn repo_view(r: Option<String>) -> Option<Seq<char>> {
    match r {
        Some(s) => Some(s@),
        None => None,
    }
}

/// The char views of a placeholder table.
pub open spec fn table_views(t: Seq<(String, String)>) -> Seq<(Seq<char>, Seq<char>)> {
    t.map_values(|p: (String, String)| (p.0@, p.1@))
}

/// The placeholder table: symbolic tokens and the regex fragments they
/// expand to. The repository entries exist only when a repository string is
/// configured; `{owner}` and a separate `{name}` exist only when it contains
/// a `/` separator.
pub open spec fn spec_placeholders(repo: Option<Seq<char>>) -> Seq<(Seq<char>, Seq<char>)> {
    let sv = "([0-9]+\\.[0-9]+\\.[0-9]+)"@;
    let base = seq![
        ("{major}"@, "([0-9]+)"@),
        ("{minor}"@, "([0-9]+\\.[0-9]+)"@),
        ("{patch}"@, sv),
        ("{version}"@, sv),
        ("{semver}"@, sv),
    ];
    match repo {
        None => base,
        Some(r) => {
            let rc = "(?i)"@ + r + "(?-i)"@;
            let j = find_char(r, '/');
            let mid = if j >= 0 {
                seq![
                    ("{owner}"@, "(?i)"@ + r.take(j) + "(?-i)"@),
                    ("{name}"@, "(?i)"@ + r.skip(j + 1) + "(?-i)"@),
                ]
            } else {
                seq![("{name}"@, rc)]
            };
            base + mid + seq![("{repository}"@, rc), ("{repo}"@, rc)]
        },
    }
}

/// One pattern after expanding the whole table, entry by entry, in order.
pub open spec fn spec_expand(p: Seq<char>, table: Seq<(Seq<char>, Seq<char>)>) -> Seq<char>
    decreases table.len(),
{
    if table.len() == 0 {
        p
    } else {
        spec_expand(spec_replace(p, table[0].0, table[0].1), table.drop_first())
    }
}

/// Builds the placeholder table for this run.
pub fn build_placeholders(repository: &Option<String>) -> (r: Vec<(String, String)>)
    ensures
        table_views(r@) == spec_placeholders(repo_view(*repository)),
        forall|k: int| 0 <= k < r@.len() ==> #[trigger] r@[k].0@.len() > 0,
{
    proof {
        reveal_strlit("{major}");
        reveal_strlit("{minor}");
        reveal_strlit("{patch}");
        reveal_strlit("{version}");
        reveal_strlit("{semver}");
        reveal_strlit("{owner}");
        reveal_strlit("{name}");
        reveal_strlit("{repository}");
        reveal_strlit("{repo}");
    }
    let semver = "([0-9]+\\.[0-9]+\\.[0-9]+)";
    let mut table: Vec<(String, String)> = Vec::new();
    table.push((String::from_str("{major}"), String::from_str("([0-9]+)")));
    table.push((String::from_str("{minor}"), String::from_str("([0-9]+\\.[0-9]+)")));
    table.push((String::from_str("{patch}"), String::from_str(semver)));
    table.push((String::from_str("{version}"), String::from_str(semver)));
    table.push((String::from_str("{semver}"), String::from_str(semver)));
    match repository {
        None => {},
        Some(repo) => {
            let repo_case = String::from_str("(?i)").concat(repo.as_str()).concat("(?-i)");
            match crate::text::find_char_in(repo.as_str(), '/') {
                Some(j) => {
                    let rn = repo.as_str().unicode_len();
                    let owner = repo.as_str().substring_char(0, j);
                    let name = repo.as_str().substring_char(j + 1, rn);
                    let owner_case = String::from_str("(?i)").concat(owner).concat("(?-i)");
                    let name_case = String::from_str("(?i)").concat(name).concat("(?-i)");
                    table.push((String::from_str("{owner}"), owner_case));
                    table.push((String::from_str("{name}"), name_case));
                },
                None => {
                    table.push((String::from_str("{name}"), repo_case.clone()));
                },
            }
            table.push((String::from_str("{repository}"), repo_case.clone()));
            table.push((String::from_str("{repo}"), repo_case));
        },
    }
    proof {
        assert(table_views(table@) =~= spec_placeholders(repo_view(*repository)));
    }
    table
}

/// Expands every placeholder of the table in one pattern, in table order.
pub fn expand_pattern(p: &str, table: &Vec<(String, String)>) -> (r: String)
    requires
        forall|k: int| 0 <= k < table@.len() ==> #[trigger] table@[k].0@.len() > 0,
    ensures
        r@ == spec_expand(p@, table_views(table@)),
{
    let mut current = p.to_owned();
    let mut k: usize = 0;
    let n = table.len();
    proof {
        assert(table_views(table@).skip(0) =~= table_views(table@));
    }
    while k < n
        invariant
            0 <= k <= n,
            n == table@.len(),
            forall|t: int| 0 <= t < table@.len() ==> #[trigger] table@[t].0@.len() > 0,
            spec_expand(p@, table_views(table@)) == spec_expand(
                current@,
                table_views(table@).skip(k as int),
            ),
        decreases n - k,
    {
        let next = crate::text::replace_str(
            current.as_str(),
            table[k].0.as_str(),
            table[k].1.as_str(),
        );
        proof {
            let tv = table_views(table@);
            assert(tv.skip(k as int)[0] == tv[k as int]);
            assert(tv.skip(k as int).drop_first() =~= tv.skip(k + 1));
        }
        current = next;
        k += 1;
    }
    proof {
        assert(table_views(table@).skip(n as int) =~= Seq::<(Seq<char>, Seq<char>)>::empty());
    }
    current
}

/// Copies a vector of strings, value for value.
pub fn clone_string_vec(v: &Vec<String>) -> (r: Vec<String>)
    ensures
        r@ == v@,
{
    let mut r: Vec<String> = Vec::new();
    let n = v.len();
    let mut i: usize = 0;
    while i < n
        invariant
            0 <= i <= n,
            n == v@.len(),
            r@ == v@.take(i as int),
        decreases n - i,
    {
        r.push(v[i].clone());
        proof {
            assert(v@.take(i + 1) =~= v@.take(i as int).push(v@[i as int]));
        }
        i += 1;
    }
    proof {
        assert(v@.take(n as int) =~= v@);
    }
    r
}

/// Copies a vector of compiled patterns, source for source.
pub fn clone_compiled_vec(v: &Vec<CompiledPattern>) -> (r: Vec<CompiledPattern>)
    ensures
        sources_of(r@) == sources_of(v@),
{
    let mut r: Vec<CompiledPattern> = Vec::new();
    let n = v.len();
    let mut i: usize = 0;
    proof {
        assert(sources_of(r@) =~= sources_of(v@).take(0));
    }
    while i < n
        invariant
            0 <= i <= n,
            n == v@.len(),
            sources_of(r@) == sources_of(v@).take(i as int),
        decreases n - i,
    {
        let ghost r0 = r@;
        r.push(v[i].duplicate());
        proof {
            crate::matching::lemma_sources_push(r0, r@.last());
            assert(sources_of(r@) =~= sources_of(r0).push(v@[i as int].source()));
            assert(sources_of(v@)[i as int] == v@[i as int].source());
            assert(sources_of(v@).take(i + 1) =~= sources_of(v@).take(i as int).push(
                sources_of(v@)[i as int],
            ));
        }
        i += 1;
    }
    proof {
        assert(sources_of(v@).take(n as int) =~= sources_of(v@));
    }
    r
}

/// Relates a location before and after placeholder expansion: every
/// declarative field is kept, and each pattern is the expansion of the old
/// pattern under the run's placeholder table.
pub open spec fn patterns_expanded(
    lo: LocationPattern,
    ln: LocationPattern,
    repo: Option<Seq<char>>,
) -> bool {
    &&& ln.name == lo.name
    &&& ln.location_type is Version
    &&& ln.default == lo.default
    &&& ln.ecosystems@ == lo.ecosystems@
    &&& ln.paths@ == lo.paths@
    &&& ln.excludes@ == lo.excludes@
    &&& sources_of(ln.regexes@) == sources_of(lo.regexes@)
    &&& ln.patterns@.len() == lo.patterns@.len()
    &&& forall|j: int|
        0 <= j < lo.patterns@.len() ==> (#[trigger] ln.patterns@[j])@ == spec_expand(
            lo.patterns@[j]@,
            spec_placeholders(repo),
        )
}

/// Whether a built-in location is selected by an ecosystem selector: one of
/// its tags equals the selector, or the wildcard tag `All`.
pub open spec fn eco_matches(l: LocationPatternView, eco: Seq<char>) -> bool {
    ||| exists|k: int| 0 <= k < l.ecosystems.len() && l.ecosystems[k] == eco
    ||| exists|k: int| 0 <= k < l.ecosystems.len() && l.ecosystems[k] == "All"@
}

/// Whether some location in the list already carries this name.
pub open spec fn has_name(locs: Seq<LocationPatternView>, name: Seq<char>) -> bool {
    exists|k: int| 0 <= k < locs.len() && locs[k].name == name
}

/// Appends to `acc` every location of `defs`, in order, that the selector
/// `eco` matches and whose name is not already present (first-seen wins).
pub open spec fn merge_eco(
    acc: Seq<LocationPatternView>,
    defs: Seq<LocationPatternView>,
    eco: Seq<char>,
) -> Seq<LocationPatternView>
    decreases defs.len(),
{
    if defs.len() == 0 {
        acc
    } else {
        let l = defs[0];
        let acc2 = if eco_matches(l, eco) && !has_name(acc, l.name) {
            acc.push(l)
        } else {
            acc
        };
        merge_eco(acc2, defs.drop_first(), eco)
    }
}

/// Folds `merge_eco` over the selectors, in order.
pub open spec fn merge_all(
    acc: Seq<LocationPatternView>,
    defs: Seq<LocationPatternView>,
    ecos: Seq<Seq<char>>,
) -> Seq<LocationPatternView>
    decreases ecos.len(),
{
    if ecos.len() == 0 {
        acc
    } else {
        merge_all(merge_eco(acc, defs, ecos[0]), defs, ecos.drop_first())
    }
}

/// Appends to `acc` every location of `defs`, in order, whose name is not
/// already present (first-seen wins).
pub open spec fn merge_any(
    acc: Seq<LocationPatternView>,
    defs: Seq<LocationPatternView>,
) -> Seq<LocationPatternView>
    decreases defs.len(),
{
    if defs.len() == 0 {
        acc
    } else {
        let acc2 = if !has_name(acc, defs[0].name) {
            acc.push(defs[0])
        } else {
            acc
        };
        merge_any(acc2, defs.drop_first())
    }
}

/// The merged catalog: with no selector every built-in pattern joins in;
/// with selectors each picks the built-ins it matches. Either way a built-in
/// whose name is already present is skipped — user patterns take precedence,
/// first-seen name wins.
pub open spec fn spec_merged(
    current: Seq<LocationPatternView>,
    defs: Seq<LocationPatternView>,
    ecos: Seq<Seq<char>>,
) -> Seq<LocationPatternView> {
    if ecos.len() == 0 {
        merge_any(current, defs)
    } else {
        merge_all(current, defs, ecos)
    }
}

/// The pattern sources that survive compilation, in order: those that
/// compile and have exactly one capture group (group 0 is the whole match,
/// so the group count is two).
pub open spec fn kept_sources(patterns: Seq<Seq<char>>) -> Seq<Seq<char>>
    decreases patterns.len(),
{
    if patterns.len() == 0 {
        patterns
    } else {
        let rest = kept_sources(patterns.drop_last());
        if compiles(patterns.last()) && group_count(patterns.last()) == 2 {
            rest.push(patterns.last())
        } else {
            rest
        }
    }
}

/// When every pattern compiles with exactly one capture group, none is
/// dropped: the compiled list carries every source, in order.
pub proof fn lemma_all_valid_patterns_kept(patterns: Seq<Seq<char>>)
    requires
        forall|i: int|
            0 <= i < patterns.len() ==> compiles(#[trigger] patterns[i]) && group_count(
                patterns[i],
            ) == 2,
    ensures
        kept_sources(patterns) == patterns,
    decreases patterns.len(),
{
    if patterns.len() > 0 {
        assert forall|i: int| 0 <= i < patterns.drop_last().len() implies compiles(
            #[trigger] patterns.drop_last()[i],
        ) && group_count(patterns.drop_last()[i]) == 2 by {
            assert(patterns.drop_last()[i] == patterns[i]);
        }
        lemma_all_valid_patterns_kept(patterns.drop_last());
        assert(kept_sources(patterns.drop_last()).push(patterns.last()) =~= patterns);
    }
}

impl LocationPattern {
    /// Compiles regex source patterns: the result holds, in order, exactly
    /// the patterns that compile and have exactly one capture group. A
    /// pattern that fails to compile is dropped alone (a compile failure),
    /// as is one whose capture-group count is not one (a configuration
    /// defect); neither failure is fatal to the rest.
    pub fn regexes(patterns: &Vec<String>) -> (r: Vec<CompiledPattern>)
        ensures
            sources_of(r@) == kept_sources(strings_view(patterns@)),
    {
        let ghost pv = strings_view(patterns@);
        let mut out: Vec<CompiledPattern> = Vec::new();
        let n = patterns.len();
        let mut k: usize = 0;
        proof {
            assert(sources_of(out@) =~= kept_sources(pv.take(0)));
        }
        while k < n
            invariant
                0 <= k <= n,
                n == patterns@.len(),
                pv == strings_view(patterns@),
                sources_of(out@) == kept_sources(pv.take(k as int)),
            decreases n - k,
        {
            let ghost out0 = out@;
            let mut kept = false;
            match crate::matching::compile_pattern(patterns[k].as_str()) {
                Some(cp) => {
                    if crate::matching::compiled_group_count(&cp) == 2 {
                        out.push(cp);
                        kept = true;
                    }
                },
                None => {},
            }
            proof {
                assert(pv.take(k + 1).drop_last() =~= pv.take(k as int));
                assert(pv.take(k + 1).last() == pv[k as int]);
                assert(pv[k as int] == patterns@[k as int]@);
                if kept {
                    assert forall|j: int| 0 <= j < out@.len() implies sources_of(out@)[j]
                        == kept_sources(pv.take(k + 1))[j] by {
                        if j < out0.len() {
                            assert(out@[j] == out0[j]);
                            assert(sources_of(out0)[j] == kept_sources(pv.take(k as int))[j]);
                        }
                    }
                    assert(sources_of(out@) =~= kept_sources(pv.take(k + 1)));
                }
            }
            k += 1;
        }
        proof {
            assert(pv.take(n as int) =~= pv);
        }
        out
    }

    /// The label shown for this location: built-in patterns are marked.
    pub fn label(&self) -> (r: String)
        ensures
            self.default ==> r@ == "Default - "@ + self.name@,
            !self.default ==> r@ == self.name@,
    {
        if self.default {
            String::from_str("Default - ").concat(self.name.as_str())
        } else {
            self.name.clone()
        }
    }

    /// Copies the pattern field by field; the copy has the same model.
    pub fn duplicate(&self) -> (r: LocationPattern)
        ensures
            loc_view(r) == loc_view(*self),
    {
        let r = LocationPattern {
            name: self.name.clone(),
            location_type: LocationType::Version,
            default: self.default,
            ecosystems: clone_string_vec(&self.ecosystems),
            paths: clone_string_vec(&self.paths),
            patterns: clone_string_vec(&self.patterns),
            excludes: clone_string_vec(&self.excludes),
            regexes: clone_compiled_vec(&self.regexes),
        };
        proof {
            assert(loc_view(r).ecosystems =~= loc_view(*self).ecosystems);
            assert(loc_view(r).paths =~= loc_view(*self).paths);
            assert(loc_view(r).patterns =~= loc_view(*self).patterns);
            assert(loc_view(r).excludes =~= loc_view(*self).excludes);
        }
        r
    }
}

/// Whether one of the location's ecosystem tags equals `eco` or the wildcard
/// `All`.
pub(crate) fn location_matches_eco(l: &LocationPattern, eco: &String) -> (r: bool)
    ensures
        r == eco_matches(loc_view(*l), eco@),
{
    let wildcard = String::from_str("All");
    let n = l.ecosystems.len();
    let mut k: usize = 0;
    while k < n
        invariant
            0 <= k <= n,
            n == l.ecosystems@.len(),
            wildcard@ == "All"@,
            forall|j: int|
                0 <= j < k ==> l.ecosystems@[j]@ != eco@ && l.ecosystems@[j]@ != "All"@,
        decreases n - k,
    {
        if l.ecosystems[k] == *eco || l.ecosystems[k] == wildcard {
            assert(loc_view(*l).ecosystems[k as int] == l.ecosystems@[k as int]@);
            return true;
        }
        k += 1;
    }
    proof {
        assert forall|j: int| 0 <= j < loc_view(*l).ecosystems.len() implies loc_view(
            *l,
        ).ecosystems[j] != eco@ && loc_view(*l).ecosystems[j] != "All"@ by {
            assert(loc_view(*l).ecosystems[j] == l.ecosystems@[j]@);
        }
    }
    false
}

/// Whether some location in the list already carries this name.
fn locations_have_name(locs: &Vec<LocationPattern>, name: &String) -> (r: bool)
    ensures
        r == has_name(locs_view(locs@), name@),
{
    let n = locs.len();
    let mut k: usize = 0;
    while k < n
        invariant
            0 <= k <= n,
            n == locs@.len(),
            forall|j: int| 0 <= j < k ==> locs@[j].name@ != name@,
        decreases n - k,
    {
        if locs[k].name == *name {
            assert(locs_view(locs@)[k as int].name == name@);
            return true;
        }
        k += 1;
    }
    proof {
        assert forall|j: int| 0 <= j < locs_view(locs@).len() implies locs_view(
            locs@,
        )[j].name != name@ by {
            assert(locs_view(locs@)[j] == loc_view(locs@[j]));
        }
    }
    false
}

/// Concatenates two string vectors into a fresh one.
pub fn concat_string_vecs(a: &Vec<String>, b: &Vec<String>) -> (r: Vec<String>)
    ensures
        r@ == a@ + b@,
{
    let mut r = clone_string_vec(a);
    let n = b.len();
    let mut i: usize = 0;
    proof {
        assert(a@ + b@.take(0) =~= a@);
    }
    while i < n
        invariant
            0 <= i <= n,
            n == b@.len(),
            r@ == a@ + b@.take(i as int),
        decreases n - i,
    {
        r.push(b[i].clone());
        proof {
            assert(a@ + b@.take(i + 1) =~= (a@ + b@.take(i as int)).push(b@[i as int]));
        }
        i += 1;
    }
    proof {
        assert(a@ + b@.take(n as int) =~= a@ + b@);
        assert(a@ + b@.take(0) =~= a@);
    }
    r
}

/// The model of a pushed list is the pushed model.
pub proof fn lemma_locs_view_push(s: Seq<LocationPattern>, x: LocationPattern)
    ensures
        locs_view(s.push(x)) =~= locs_view(s).push(loc_view(x)),
{
    assert forall|j: int| 0 <= j < s.len() + 1 implies locs_view(s.push(x))[j] == locs_view(
        s,
    ).push(loc_view(x))[j] by {
        if j < s.len() {
            assert(s.push(x)[j] == s[j]);
        } else {
            assert(s.push(x)[j] == x);
        }
    }
}

/// Duplicates a list of locations, model for model.
pub fn duplicate_locations(v: &Vec<LocationPattern>) -> (r: Vec<LocationPattern>)
    ensures
        locs_view(r@) == locs_view(v@),
{
    let mut r: Vec<LocationPattern> = Vec::new();
    let n = v.len();
    let mut i: usize = 0;
    proof {
        assert(locs_view(r@) =~= locs_view(v@).take(0));
    }
    while i < n
        invariant
            0 <= i <= n,
            n == v@.len(),
            locs_view(r@) == locs_view(v@).take(i as int),
        decreases n - i,
    {
        let ghost r0 = r@;
        r.push(v[i].duplicate());
        proof {
            lemma_locs_view_push(r0, r@.last());
            assert(locs_view(r@) =~= locs_view(r0).push(loc_view(v@[i as int])));
            assert(locs_view(v@).take(i + 1) =~= locs_view(v@).take(i as int).push(
                locs_view(v@)[i as int],
            ));
        }
        i += 1;
    }
    proof {
        assert(locs_view(v@).take(n as int) =~= locs_view(v@));
    }
    r
}

/// Merges user locations with the built-in catalog: with no selector every
/// built-in pattern is appended; otherwise each selector picks the built-ins
/// it matches, skipping any name already present (first-seen wins). The
/// inputs are only read; the result is a fresh list.
pub fn merged_locations(
    current: &Vec<LocationPattern>,
    builtin: &Vec<LocationPattern>,
    ecos: &Vec<String>,
) -> (r: Vec<LocationPattern>)
    ensures
        locs_view(r@) == spec_merged(locs_view(current@), locs_view(builtin@), strings_view(ecos@)),
{
    let mut r = duplicate_locations(current);
    let nd = builtin.len();
    if ecos.len() == 0 {
        let ghost defs = locs_view(builtin@);
        let ghost acc_entry = locs_view(r@);
        let mut d: usize = 0;
        proof {
            assert(defs.skip(0) =~= defs);
        }
        while d < nd
            invariant
                0 <= d <= nd,
                nd == builtin@.len(),
                defs == locs_view(builtin@),
                merge_any(locs_view(r@), defs.skip(d as int)) == merge_any(acc_entry, defs),
            decreases nd - d,
        {
            let ghost r0 = r@;
            let already = locations_have_name(&r, &builtin[d].name);
            if !already {
                r.push(builtin[d].duplicate());
                proof {
                    lemma_locs_view_push(r0, r@.last());
                    assert(defs[d as int] == loc_view(builtin@[d as int]));
                    assert(locs_view(r@) =~= locs_view(r0).push(defs[d as int]));
                }
            }
            proof {
                assert(defs.skip(d as int)[0] == defs[d as int]);
                assert(defs.skip(d as int).drop_first() =~= defs.skip(d + 1));
            }
            d += 1;
        }
        proof {
            assert(defs.skip(nd as int) =~= Seq::<LocationPatternView>::empty());
        }
        r
    } else {
        let ne = ecos.len();
        let ghost defs = locs_view(builtin@);
        let ghost ecos_v = strings_view(ecos@);
        let mut e: usize = 0;
        proof {
            assert(ecos_v.skip(0) =~= ecos_v);
        }
        while e < ne
            invariant
                0 <= e <= ne,
                ne == ecos@.len(),
                nd == builtin@.len(),
                defs == locs_view(builtin@),
                ecos_v == strings_view(ecos@),
                merge_all(locs_view(r@), defs, ecos_v.skip(e as int)) == merge_all(
                    locs_view(current@),
                    defs,
                    ecos_v,
                ),
            decreases ne - e,
        {
            let ghost acc_entry = locs_view(r@);
            let mut d: usize = 0;
            proof {
                assert(defs.skip(0) =~= defs);
            }
            while d < nd
                invariant
                    0 <= d <= nd,
                    0 <= e < ne,
                    ne == ecos@.len(),
                    nd == builtin@.len(),
                    defs == locs_view(builtin@),
                    merge_eco(locs_view(r@), defs.skip(d as int), ecos@[e as int]@) == merge_eco(
                        acc_entry,
                        defs,
                        ecos@[e as int]@,
                    ),
                decreases nd - d,
            {
                let ghost r0 = r@;
                let ghost acc0 = locs_view(r@);
                let matched = location_matches_eco(&builtin[d], &ecos[e]);
                if matched {
                    let already = locations_have_name(&r, &builtin[d].name);
                    if !already {
                        r.push(builtin[d].duplicate());
                        proof {
                            lemma_locs_view_push(r0, r@.last());
                            assert(defs[d as int] == loc_view(builtin@[d as int]));
                            assert(locs_view(r@) =~= acc0.push(defs[d as int]));
                        }
                    }
                }
                proof {
                    assert(defs.skip(d as int)[0] == defs[d as int]);
                    assert(defs.skip(d as int).drop_first() =~= defs.skip(d + 1));
                }
                d += 1;
            }
            proof {
                assert(defs.skip(nd as int) =~= Seq::<LocationPatternView>::empty());
                assert(ecos_v.skip(e as int)[0] == ecos@[e as int]@);
                assert(ecos_v.skip(e as int).drop_first() =~= ecos_v.skip(e + 1));
            }
            e += 1;
        }
        proof {
            assert(ecos_v.skip(ne as int) =~= Seq::<Seq<char>>::empty());
        }
        r
    }
}

/// A location with the global exclude substrings appended.
pub open spec fn with_excludes(l: LocationPatternView, globals: Seq<Seq<char>>) -> LocationPatternView {
    LocationPatternView {
        name: l.name,
        default: l.default,
        ecosystems: l.ecosystems,
        paths: l.paths,
        patterns: l.patterns,
        excludes: l.excludes + globals,
        regexes: l.regexes,
    }
}

/// A location with every pattern expanded under the run's placeholder table.
pub open spec fn with_expanded(l: LocationPatternView, repo: Option<Seq<char>>) -> LocationPatternView {
    LocationPatternView {
        name: l.name,
        default: l.default,
        ecosystems: l.ecosystems,
        paths: l.paths,
        patterns: l.patterns.map_values(|p: Seq<char>| spec_expand(p, spec_placeholders(repo))),
        excludes: l.excludes,
        regexes: l.regexes,
    }
}

/// The single ecosystem selector, when set, joins the selector list.
pub open spec fn pushed_ecosystems(ecosystems: Seq<String>, ecosystem: Option<String>) -> Seq<
    String,
> {
    match ecosystem {
        Some(e) => ecosystems.push(e),
        None => ecosystems,
    }
}

/// The fully resolved location list: the catalog merge (when built-ins are
/// enabled), then global excludes, then placeholder expansion.
pub open spec fn resolved_locations(
    current: Seq<LocationPatternView>,
    defs: Seq<LocationPatternView>,
    ecos: Seq<Seq<char>>,
    globals: Seq<Seq<char>>,
    repo: Option<Seq<char>>,
    use_defaults: bool,
) -> Seq<LocationPatternView> {
    let merged = if use_defaults {
        spec_merged(current, defs, ecos)
    } else {
        current
    };
    merged.map_values(|l: LocationPatternView| with_expanded(with_excludes(l, globals), repo))
}

impl Config {
    /// Whether built-in default locations should be used; unset means yes.
    pub fn use_default(&self) -> (r: bool)
        ensures
            r == (self.default != Some(false)),
    {
        match self.default {
            Some(b) => b,
            None => true,
        }
    }

    /// Resolves a freshly loaded configuration against the built-in catalog:
    /// the single ecosystem selector joins the selector list; built-ins are
    /// merged in (unless disabled); global excludes are appended to every
    /// location; and placeholders are expanded in every pattern. The catalog
    /// is only read, never mutated.
    pub fn resolve(&mut self, builtin: &Vec<LocationPattern>)
        ensures
            final (self).name == old(self).name,
            final (self).repository == old(self).repository,
            final (self).version == old(self).version,
            final (self).default == old(self).default,
            final (self).ecosystem == old(self).ecosystem,
            final (self).excludes == old(self).excludes,
            final (self).ecosystems@ == pushed_ecosystems(
                old(self).ecosystems@,
                old(self).ecosystem,
            ),
            locs_view(final (self).locations@) == resolved_locations(
                locs_view(old(self).locations@),
                locs_view(builtin@),
                strings_view(pushed_ecosystems(old(self).ecosystems@, old(self).ecosystem)),
                strings_view(old(self).excludes@),
                repo_view(old(self).repository),
                old(self).default != Some(false),
            ),
    {
        if let Some(eco) = &self.ecosystem {
            let e = eco.clone();
            self.ecosystems.push(e);
        }
        if self.use_default() {
            let merged = merged_locations(&self.locations, builtin, &self.ecosystems);
            self.locations = merged;
        }
        let ghost merged_v = locs_view(self.locations@);
        let ghost globals_v = strings_view(self.excludes@);
        let n = self.locations.len();
        let mut with_globals: Vec<LocationPattern> = Vec::new();
        let mut i: usize = 0;
        while i < n
            invariant
                0 <= i <= n,
                n == self.locations@.len(),
                merged_v == locs_view(self.locations@),
                globals_v == strings_view(self.excludes@),
                with_globals@.len() == i,
                forall|k: int|
                    0 <= k < i ==> loc_view(#[trigger] with_globals@[k]) == with_excludes(
                        merged_v[k],
                        globals_v,
                    ),
            decreases n - i,
        {
            let src = &self.locations[i];
            let nl = LocationPattern {
                name: src.name.clone(),
                location_type: LocationType::Version,
                default: src.default,
                ecosystems: clone_string_vec(&src.ecosystems),
                paths: clone_string_vec(&src.paths),
                patterns: clone_string_vec(&src.patterns),
                excludes: concat_string_vecs(&src.excludes, &self.excludes),
                regexes: clone_compiled_vec(&src.regexes),
            };
            proof {
                assert(loc_view(nl).ecosystems =~= loc_view(*src).ecosystems);
                assert(loc_view(nl).paths =~= loc_view(*src).paths);
                assert(loc_view(nl).patterns =~= loc_view(*src).patterns);
                assert(loc_view(nl).excludes =~= loc_view(*src).excludes + strings_view(
                    self.excludes@,
                ));
                assert(merged_v[i as int] == loc_view(self.locations@[i as int]));
            }
            with_globals.push(nl);
            i += 1;
        }
        self.locations = with_globals;
        let ghost pre = self.locations@;
        self.update_placeholders();
        proof {
            let repo = repo_view(old(self).repository);
            let target = resolved_locations(
                locs_view(old(self).locations@),
                locs_view(builtin@),
                strings_view(pushed_ecosystems(old(self).ecosystems@, old(self).ecosystem)),
                strings_view(old(self).excludes@),
                repo,
                old(self).default != Some(false),
            );
            assert(target == merged_v.map_values(
                |l: LocationPatternView| with_expanded(with_excludes(l, globals_v), repo),
            ));
            assert forall|k: int| 0 <= k < merged_v.len() implies loc_view(
                #[trigger] self.locations@[k],
            ) == target[k] by {
                let lo = pre[k];
                let ln = self.locations@[k];
                let mid = with_excludes(merged_v[k], globals_v);
                assert(loc_view(lo) == mid);
                assert(patterns_expanded(lo, ln, repo));
                assert(loc_view(ln).ecosystems =~= loc_view(lo).ecosystems);
                assert(loc_view(ln).paths =~= loc_view(lo).paths);
                assert(loc_view(ln).excludes =~= loc_view(lo).excludes);
                assert forall|j: int| 0 <= j < loc_view(ln).patterns.len() implies loc_view(
                    ln,
                ).patterns[j] == mid.patterns.map_values(
                    |p: Seq<char>| spec_expand(p, spec_placeholders(repo)),
                )[j] by {
                    assert(loc_view(ln).patterns[j] == ln.patterns@[j]@);
                    assert(ln.patterns@[j]@ == spec_expand(lo.patterns@[j]@, spec_placeholders(repo)));
                    assert(mid.patterns[j] == lo.patterns@[j]@);
                }
                assert(loc_view(ln).patterns =~= mid.patterns.map_values(
                    |p: Seq<char>| spec_expand(p, spec_placeholders(repo)),
                ));
                assert(loc_view(ln) == with_expanded(mid, repo));
            }
            assert(locs_view(self.locations@) =~= target);
        }
    }

    /// Expands the placeholder table into every location's patterns. The
    /// table is derived from the configured repository string, so this runs
    /// once per invocation, after the catalog merge.
    pub fn update_placeholders(&mut self)
        ensures
            final (self).name == old(self).name,
            final (self).repository == old(self).repository,
            final (self).version == old(self).version,
            final (self).default == old(self).default,
            final (self).ecosystem == old(self).ecosystem,
            final (self).ecosystems == old(self).ecosystems,
            final (self).excludes == old(self).excludes,
            final (self).locations@.len() == old(self).locations@.len(),
            forall|i: int|
                0 <= i < old(self).locations@.len() ==> patterns_expanded(
                    #[trigger] old(self).locations@[i],
                    final (self).locations@[i],
                    repo_view(old(self).repository),
                ),
    {
        let table = build_placeholders(&self.repository);
        let n = self.locations.len();
        let mut new_locations: Vec<LocationPattern> = Vec::new();
        let mut i: usize = 0;
        while i < n
            invariant
                0 <= i <= n,
                *self == *old(self),
                n == self.locations@.len(),
                table_views(table@) == spec_placeholders(repo_view(self.repository)),
                forall|k: int| 0 <= k < table@.len() ==> #[trigger] table@[k].0@.len() > 0,
                new_locations@.len() == i,
                forall|k: int|
                    0 <= k < i ==> patterns_expanded(
                        #[trigger] self.locations@[k],
                        new_locations@[k],
                        repo_view(self.repository),
                    ),
            decreases n - i,
        {
            let src = &self.locations[i];
            let m = src.patterns.len();
            let mut new_patterns: Vec<String> = Vec::new();
            let mut j: usize = 0;
            while j < m
                invariant
                    0 <= j <= m,
                    m == src.patterns@.len(),
                    forall|k: int| 0 <= k < table@.len() ==> #[trigger] table@[k].0@.len() > 0,
                    new_patterns@.len() == j,
                    forall|k: int|
                        0 <= k < j ==> (#[trigger] new_patterns@[k])@ == spec_expand(
                            src.patterns@[k]@,
                            table_views(table@),
                        ),
                decreases m - j,
            {
                let e = expand_pattern(src.patterns[j].as_str(), &table);
                new_patterns.push(e);
                j += 1;
            }
            let nl = LocationPattern {
                name: src.name.clone(),
                location_type: LocationType::Version,
                default: src.default,
                ecosystems: clone_string_vec(&src.ecosystems),
                paths: clone_string_vec(&src.paths),
                patterns: new_patterns,
                excludes: clone_string_vec(&src.excludes),
                regexes: clone_compiled_vec(&src.regexes),
            };
            new_locations.push(nl);
            i += 1;
        }
        self.locations = new_locations;
    }
}

} // verus!
