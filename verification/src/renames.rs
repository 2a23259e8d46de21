//! How a package calls its dependencies: the renames written in its
//! manifest, and the library name a dependency is passed to `rustc` under.

use vstd::prelude::*;

verus! {

/// One name under which a dependency is used, for the versions that match a
/// requirement.
#[derive(Clone, Debug)]
pub struct RenameWithVersion {
    pub rename: String,
    /// The version requirement, as written in the manifest.
    pub version_req: String,
}

/// How a dependency is renamed: under one name, or under one name per
/// version requirement.
#[derive(Clone, Debug)]
pub enum DependencyRename {
    Simple(String),
    Extended(Vec<RenameWithVersion>),
}

/// The view of a rename.
pub enum SpecRename {
    Simple(Seq<char>),
    /// The names with their version requirements.
    Extended(Seq<(Seq<char>, Seq<char>)>),
}

/// The view of renames with their version requirements.
pub open spec fn versions_view(v: Seq<RenameWithVersion>) -> Seq<(Seq<char>, Seq<char>)> {
    v.map_values(|r: RenameWithVersion| (r.rename@, r.version_req@))
}

impl View for DependencyRename {
    type V = SpecRename;

    open spec fn view(&self) -> SpecRename {
        match self {
            DependencyRename::Simple(s) => SpecRename::Simple(s@),
            DependencyRename::Extended(v) => SpecRename::Extended(versions_view(v@)),
        }
    }
}

/// The renames of the dependencies of a package, by package name.
#[derive(Clone, Debug)]
pub struct DependencyRenames {
    entries: Vec<(String, DependencyRename)>,
}

/// The view of rename entries.
pub open spec fn entries_view(v: Seq<(String, DependencyRename)>) -> Seq<(Seq<char>, SpecRename)> {
    v.map_values(|e: (String, DependencyRename)| (e.0@, e.1@))
}

/// The rename of the package `name`: that of the first entry for it.
pub open spec fn rename_of(entries: Seq<(Seq<char>, SpecRename)>, name: Seq<char>) -> Option<SpecRename>
    decreases entries.len(),
{
    if entries.len() == 0 {
        None
    } else if entries[0].0 == name {
        Some(entries[0].1)
    } else {
        rename_of(entries.drop_first(), name)
    }
}

/// The package names of rename entries.
pub open spec fn entry_names(entries: Seq<(Seq<char>, SpecRename)>) -> Seq<Seq<char>> {
    entries.map_values(|e: (Seq<char>, SpecRename)| e.0)
}

/// Whether two strings are equal.
pub fn str_eq(a: &str, b: &str) -> (r: bool)
    ensures
        r == (a@ == b@),
{
    let x = crate::text::chars_of(a);
    crate::text::vec_eq_str(&x, b)
}

impl DependencyRenames {
    /// The entries: a package name and its rename.
    pub closed spec fn spec_entries(&self) -> Seq<(Seq<char>, SpecRename)> {
        entries_view(self.entries@)
    }

    /// No package has two entries.
    pub open spec fn wf(&self) -> bool {
        entry_names(self.spec_entries()).no_duplicates()
    }

    /// No renames.
    pub fn new() -> (r: DependencyRenames)
        ensures
            r.spec_entries() == Seq::<(Seq<char>, SpecRename)>::empty(),
            r.wf(),
    {
        let r = DependencyRenames { entries: Vec::new() };
        assert(r.spec_entries() =~= Seq::empty());
        assert(entry_names(r.spec_entries()) =~= Seq::empty());
        r
    }

    /// The renames with the given entries.
    pub fn from_entries(entries: Vec<(String, DependencyRename)>) -> (r: DependencyRenames)
        ensures
            r.spec_entries() == entries_view(entries@),
    {
        DependencyRenames { entries }
    }

    /// The entries.
    pub fn entries(&self) -> (r: &Vec<(String, DependencyRename)>)
        ensures
            entries_view(r@) == self.spec_entries(),
    {
        &self.entries
    }

    /// Whether there is no rename.
    pub fn is_empty(&self) -> (r: bool)
        ensures
            r == (self.spec_entries().len() == 0),
    {
        self.entries.len() == 0
    }

    /// The rename of the package `name`, if any.
    pub fn get(&self, name: &str) -> (r: Option<&DependencyRename>)
        ensures
            match r {
                Some(x) => rename_of(self.spec_entries(), name@) == Some(x@),
                None => rename_of(self.spec_entries(), name@) is None,
            },
    {
        let ghost all = self.spec_entries();
        let mut i: usize = 0;
        assert(all.skip(0) =~= all);
        while i < self.entries.len()
            invariant
                all == self.spec_entries(),
                0 <= i <= self.entries@.len(),
                rename_of(all, name@) == rename_of(all.skip(i as int), name@),
            decreases self.entries@.len() - i,
        {
            proof {
                assert(all.skip(i as int).drop_first() =~= all.skip(i + 1));
                assert(all.skip(i as int)[0] == all[i as int]);
            }
            if str_eq(self.entries[i].0.as_str(), name) {
                return Some(&self.entries[i].1);
            }
            i = i + 1;
        }
        None
    }
}

/// Whether semver's `VersionReq::parse` accepts `req`.
pub uninterp spec fn semver_req_parses(req: Seq<char>) -> bool;

/// Whether semver's `Version::parse` accepts `version`.
pub uninterp spec fn semver_version_parses(version: Seq<char>) -> bool;

/// What semver's `VersionReq::matches` answers for the requirement parsed
/// from `req` and the version parsed from `version`.
pub uninterp spec fn semver_req_matches(req: Seq<char>, version: Seq<char>) -> bool;

/// Whether semver's `VersionReq::parse` accepts `req`: the answer is named,
/// not described; it is a function of the text.
#[verifier::external_body]
fn req_parses(req: &str) -> (r: bool)
    ensures
        r == semver_req_parses(req@),
{
    semver::VersionReq::parse(req).is_ok()
}

/// Whether semver's `Version::parse` accepts `version`: the answer is
/// named, not described; it is a function of the text.
#[verifier::external_body]
fn version_parses(version: &str) -> (r: bool)
    ensures
        r == semver_version_parses(version@),
{
    semver::Version::parse(version).is_ok()
}

/// Whether the version parsed from `version` meets the requirement parsed
/// from `req` (semver's `VersionReq::matches`); both texts parse. The
/// answer is named, not described: it is a function of the two texts.
#[verifier::external_body]
fn req_matches(req: &str, version: &str) -> (r: bool)
    requires
        semver_req_parses(req@),
        semver_version_parses(version@),
    ensures
        r == semver_req_matches(req@, version@),
{
    match (semver::VersionReq::parse(req), semver::Version::parse(version)) {
        (Ok(req), Ok(version)) => req.matches(&version),
        _ => false,
    }
}

/// The outcome of parsing `req` as a semver version requirement and
/// `version` as a semver version, then testing whether the version meets the
/// requirement: `None` if either does not parse.
pub open spec fn semver_matches(req: Seq<char>, version: Seq<char>) -> Option<bool> {
    if semver_req_parses(req) && semver_version_parses(version) {
        Some(semver_req_matches(req, version))
    } else {
        None
    }
}

/// Parses `req` as a semver version requirement and `version` as a semver
/// version and, if both parse, tests whether the version meets the
/// requirement.
fn version_matches(req: &str, version: &str) -> (r: Option<bool>)
    ensures
        r == semver_matches(req@, version@),
{
    if req_parses(req) && version_parses(version) {
        Some(req_matches(req, version))
    } else {
        None
    }
}

/// The name of the first rename whose requirement `version` meets.
pub open spec fn first_matching(versions: Seq<(Seq<char>, Seq<char>)>, version: Seq<char>) -> Option<Seq<char>>
    decreases versions.len(),
{
    if versions.len() == 0 {
        None
    } else if semver_matches(versions[0].1, version) == Some(true) {
        Some(versions[0].0)
    } else {
        first_matching(versions.drop_first(), version)
    }
}

/// The name a dependency is known under: its rename, the rename for its
/// version, or else its library name.
pub open spec fn lib_name_for(entries: Seq<(Seq<char>, SpecRename)>, package: Seq<char>, version: Seq<char>, lib_name: Seq<char>) -> Seq<char> {
    match rename_of(entries, package) {
        None => lib_name,
        Some(SpecRename::Simple(r)) => r,
        Some(SpecRename::Extended(vs)) => match first_matching(vs, version) {
            Some(r) => r,
            None => lib_name,
        },
    }
}

/// The name under which the library `lib_name` of the package `package` at
/// version `version` is passed to `rustc`.
pub fn lib_name_for_dep(renames: &DependencyRenames, package: &str, version: &str, lib_name: &str) -> (r: String)
    ensures
        r@ == lib_name_for(renames.spec_entries(), package@, version@, lib_name@),
{
    match renames.get(package) {
        None => lib_name.to_string(),
        Some(DependencyRename::Simple(rename)) => rename.clone(),
        Some(DependencyRename::Extended(versions)) => {
            let ghost vs = versions_view(versions@);
            let mut i: usize = 0;
            assert(vs.skip(0) =~= vs);
            while i < versions.len()
                invariant
                    vs == versions_view(versions@),
                    rename_of(renames.spec_entries(), package@) == Some(SpecRename::Extended(vs)),
                    0 <= i <= versions@.len(),
                    first_matching(vs, version@) == first_matching(vs.skip(i as int), version@),
                decreases versions@.len() - i,
            {
                proof {
                    assert(vs.skip(i as int).drop_first() =~= vs.skip(i + 1));
                    assert(vs.skip(i as int)[0] == vs[i as int]);
                }
                if version_matches(versions[i].version_req.as_str(), version) == Some(true) {
                    return versions[i].rename.clone();
                }
                i = i + 1;
            }
            lib_name.to_string()
        },
    }
}

/// The kind of a dependency.
#[derive(Clone, Copy, Debug, PartialEq, Eq, Structural)]
pub enum DepKind {
    Normal,
    Build,
    Development,
}

/// A dependency of a package, as its manifest declares it.
#[derive(Clone, Debug)]
pub struct Dep {
    pub kind: DepKind,
    /// The name the manifest gives the dependency, when it renames it.
    pub name_in_toml: Option<String>,
    /// The name of the package depended on.
    pub package_name: String,
    /// The version requirement, as written in the manifest.
    pub version_req: String,
}

/// The view of a dependency.
pub struct SpecDep {
    pub kind: DepKind,
    pub name_in_toml: Option<Seq<char>>,
    pub package_name: Seq<char>,
    pub version_req: Seq<char>,
}

impl View for Dep {
    type V = SpecDep;

    open spec fn view(&self) -> SpecDep {
        SpecDep {
            kind: self.kind,
            name_in_toml: match self.name_in_toml {
                Some(n) => Some(n@),
                None => None,
            },
            package_name: self.package_name@,
            version_req: self.version_req@,
        }
    }
}

/// The view of dependencies.
pub open spec fn deps_view(deps: Seq<Dep>) -> Seq<SpecDep> {
    deps.map_values(|d: Dep| d@)
}

/// Which dependencies a set of renames is made of.
#[derive(Clone, Copy, Debug, PartialEq, Eq, Structural)]
pub enum DepFilter {
    /// The dependencies of the library and binaries.
    Normal,
    /// The dependencies of the build script.
    Build,
    /// Both, leaving out development dependencies.
    NonDev,
}

/// The dependency counts for the renames.
pub open spec fn counts(d: SpecDep, filter: DepFilter) -> bool {
    &&& d.name_in_toml is Some
    &&& match filter {
        DepFilter::Normal => d.kind == DepKind::Normal,
        DepFilter::Build => d.kind == DepKind::Build,
        DepFilter::NonDev => d.kind != DepKind::Development,
    }
}

/// The renames, with their version requirements, that the dependencies
/// give the package `name`, in order.
pub open spec fn renames_for(deps: Seq<SpecDep>, filter: DepFilter, name: Seq<char>) -> Seq<(Seq<char>, Seq<char>)>
    decreases deps.len(),
{
    if deps.len() == 0 {
        Seq::empty()
    } else {
        let rest = renames_for(deps.drop_last(), filter, name);
        let d = deps.last();
        if counts(d, filter) && d.package_name == name {
            rest.push((d.name_in_toml.unwrap(), d.version_req))
        } else {
            rest
        }
    }
}

/// The rename of a package given all its renames: none, the one name, or
/// each name with its version requirement.
pub open spec fn grouped_rename(vs: Seq<(Seq<char>, Seq<char>)>) -> Option<SpecRename> {
    if vs.len() == 0 {
        None
    } else if vs.len() == 1 {
        Some(SpecRename::Simple(vs[0].0))
    } else {
        Some(SpecRename::Extended(vs))
    }
}

/// The renames gathered so far: each package name with its renames.
pub open spec fn groups_view(v: Seq<(String, Vec<RenameWithVersion>)>) -> Seq<(Seq<char>, Seq<(Seq<char>, Seq<char>)>)> {
    v.map_values(|g: (String, Vec<RenameWithVersion>)| (g.0@, versions_view(g.1@)))
}

/// The position of a group named `name`, if there is one.
pub open spec fn group_index(groups: Seq<(Seq<char>, Seq<(Seq<char>, Seq<char>)>)>, name: Seq<char>) -> int {
    choose|i: int| 0 <= i < groups.len() && (#[trigger] groups[i]).0 == name
}

/// The renames gathered for `name`, or none.
pub open spec fn group_of(groups: Seq<(Seq<char>, Seq<(Seq<char>, Seq<char>)>)>, name: Seq<char>) -> Seq<(Seq<char>, Seq<char>)> {
    if exists|i: int| 0 <= i < groups.len() && (#[trigger] groups[i]).0 == name {
        groups[group_index(groups, name)].1
    } else {
        Seq::empty()
    }
}

/// The names of gathered renames.
pub open spec fn group_names(groups: Seq<(Seq<char>, Seq<(Seq<char>, Seq<char>)>)>) -> Seq<Seq<char>> {
    groups.map_values(|g: (Seq<char>, Seq<(Seq<char>, Seq<char>)>)| g.0)
}

/// With distinct names, the group at `i` is the group of its name.
proof fn lemma_group_at(groups: Seq<(Seq<char>, Seq<(Seq<char>, Seq<char>)>)>, i: int)
    requires
        group_names(groups).no_duplicates(),
        0 <= i < groups.len(),
    ensures
        group_of(groups, groups[i].0) == groups[i].1,
{
    let name = groups[i].0;
    assert(exists|j: int| 0 <= j < groups.len() && (#[trigger] groups[j]).0 == name) by {
        assert(groups[i].0 == name);
    }
    let j = group_index(groups, name);
    assert(0 <= j < groups.len() && groups[j].0 == name);
    if j != i {
        assert(group_names(groups)[i] == groups[i].0);
        assert(group_names(groups)[j] == groups[j].0);
    }
}

/// With distinct names, the first entry for a name is the one entry for it.
proof fn lemma_rename_of_at(entries: Seq<(Seq<char>, SpecRename)>, i: int)
    requires
        entry_names(entries).no_duplicates(),
        0 <= i < entries.len(),
    ensures
        rename_of(entries, entries[i].0) == Some(entries[i].1),
    decreases i,
{
    if i > 0 {
        let rest = entries.drop_first();
        assert(entry_names(rest) =~= entry_names(entries).drop_first());
        assert(entry_names(entries)[0] != entry_names(entries)[i]);
        assert(rest[i - 1] == entries[i]);
        lemma_rename_of_at(rest, i - 1);
    }
}

/// A name no entry has has no rename.
proof fn lemma_rename_of_absent(entries: Seq<(Seq<char>, SpecRename)>, name: Seq<char>)
    requires
        forall|i: int| 0 <= i < entries.len() ==> (#[trigger] entries[i]).0 != name,
    ensures
        rename_of(entries, name) is None,
    decreases entries.len(),
{
    if entries.len() > 0 {
        let rest = entries.drop_first();
        assert forall|i: int| 0 <= i < rest.len() implies (#[trigger] rest[i]).0 != name by {
            assert(rest[i] == entries[i + 1]);
        }
        lemma_rename_of_absent(rest, name);
    }
}

/// One more dependency adds its rename, if it counts, to those of its
/// package.
proof fn lemma_renames_for_step(deps: Seq<SpecDep>, i: int, filter: DepFilter, name: Seq<char>)
    requires
        0 <= i < deps.len(),
    ensures
        renames_for(deps.take(i + 1), filter, name) == if counts(deps[i], filter) && deps[i].package_name == name {
            renames_for(deps.take(i), filter, name).push((deps[i].name_in_toml.unwrap(), deps[i].version_req))
        } else {
            renames_for(deps.take(i), filter, name)
        },
{
    assert(deps.take(i + 1).drop_last() =~= deps.take(i));
    assert(deps.take(i + 1).last() == deps[i]);
}

/// Adding a group for a new name.
proof fn lemma_group_of_push(
    groups: Seq<(Seq<char>, Seq<(Seq<char>, Seq<char>)>)>,
    key: Seq<char>,
    vs: Seq<(Seq<char>, Seq<char>)>,
    name: Seq<char>,
)
    requires
        group_names(groups).no_duplicates(),
        forall|k: int| 0 <= k < groups.len() ==> (#[trigger] groups[k]).0 != key,
    ensures
        group_names(groups.push((key, vs))).no_duplicates(),
        group_of(groups.push((key, vs)), name) == if name == key {
            vs
        } else {
            group_of(groups, name)
        },
{
    let now = groups.push((key, vs));
    assert(group_names(now) =~= group_names(groups).push(key));
    assert forall|a: int, b: int| 0 <= a < b < group_names(now).len() implies group_names(now)[a] != group_names(now)[b] by {
        if b == groups.len() {
            assert(group_names(now)[a] == groups[a].0);
        } else {
            assert(group_names(now)[a] == group_names(groups)[a]);
            assert(group_names(now)[b] == group_names(groups)[b]);
        }
    }
    if name == key {
        lemma_group_at(now, groups.len() as int);
    } else if exists|k: int| 0 <= k < groups.len() && (#[trigger] groups[k]).0 == name {
        let k = choose|k: int| 0 <= k < groups.len() && (#[trigger] groups[k]).0 == name;
        lemma_group_at(groups, k);
        assert(now[k] == groups[k]);
        lemma_group_at(now, k);
    } else {
        assert forall|k: int| 0 <= k < now.len() implies (#[trigger] now[k]).0 != name by {
            if k < groups.len() {
                assert(now[k] == groups[k]);
            }
        }
    }
}

/// Replacing the renames of the group at `j`.
proof fn lemma_group_of_update(
    groups: Seq<(Seq<char>, Seq<(Seq<char>, Seq<char>)>)>,
    j: int,
    vs: Seq<(Seq<char>, Seq<char>)>,
    name: Seq<char>,
)
    requires
        group_names(groups).no_duplicates(),
        0 <= j < groups.len(),
    ensures
        group_names(groups.update(j, (groups[j].0, vs))).no_duplicates(),
        group_of(groups.update(j, (groups[j].0, vs)), name) == if name == groups[j].0 {
            vs
        } else {
            group_of(groups, name)
        },
{
    let now = groups.update(j, (groups[j].0, vs));
    assert(group_names(now) =~= group_names(groups));
    if name == groups[j].0 {
        lemma_group_at(now, j);
    } else if exists|k: int| 0 <= k < groups.len() && (#[trigger] groups[k]).0 == name {
        let k = choose|k: int| 0 <= k < groups.len() && (#[trigger] groups[k]).0 == name;
        lemma_group_at(groups, k);
        assert(now[k] == groups[k]);
        lemma_group_at(now, k);
    } else {
        assert forall|k: int| 0 <= k < now.len() implies (#[trigger] now[k]).0 != name by {
            if k != j {
                assert(now[k] == groups[k]);
            }
        }
    }
}

/// The position of the group named `name`, if any.
fn find_group(groups: &Vec<(String, Vec<RenameWithVersion>)>, name: &str) -> (r: Option<usize>)
    ensures
        match r {
            Some(j) => j < groups@.len() && groups_view(groups@)[j as int].0 == name@,
            None => forall|k: int| 0 <= k < groups@.len() ==> (#[trigger] groups_view(groups@)[k]).0 != name@,
        },
{
    let mut j: usize = 0;
    while j < groups.len()
        invariant
            0 <= j <= groups@.len(),
            forall|k: int| 0 <= k < j ==> (#[trigger] groups_view(groups@)[k]).0 != name@,
        decreases groups@.len() - j,
    {
        if str_eq(groups[j].0.as_str(), name) {
            return Some(j);
        }
        j = j + 1;
    }
    None
}

impl RenameWithVersion {
    /// A copy of the rename.
    pub fn copy(&self) -> (r: RenameWithVersion)
        ensures
            r.rename@ == self.rename@,
            r.version_req@ == self.version_req@,
    {
        RenameWithVersion { rename: self.rename.clone(), version_req: self.version_req.clone() }
    }
}

/// A copy of the renames.
fn copy_versions(v: &Vec<RenameWithVersion>) -> (r: Vec<RenameWithVersion>)
    ensures
        versions_view(r@) == versions_view(v@),
{
    let mut out: Vec<RenameWithVersion> = Vec::new();
    let mut i: usize = 0;
    while i < v.len()
        invariant
            0 <= i <= v@.len(),
            versions_view(out@) == versions_view(v@).take(i as int),
        decreases v@.len() - i,
    {
        let ghost prev = out@;
        out.push(v[i].copy());
        assert(versions_view(out@) =~= versions_view(prev).push(versions_view(v@)[i as int]));
        assert(versions_view(v@).take(i + 1) =~= versions_view(v@).take(i as int).push(versions_view(v@)[i as int]));
        i = i + 1;
    }
    assert(versions_view(v@).take(i as int) =~= versions_view(v@));
    out
}

/// Whether a dependency of kind `kind` is kept by `filter`.
fn keeps(filter: DepFilter, kind: DepKind) -> (r: bool)
    ensures
        r == match filter {
            DepFilter::Normal => kind == DepKind::Normal,
            DepFilter::Build => kind == DepKind::Build,
            DepFilter::NonDev => kind != DepKind::Development,
        },
{
    match filter {
        DepFilter::Normal => kind == DepKind::Normal,
        DepFilter::Build => kind == DepKind::Build,
        DepFilter::NonDev => kind != DepKind::Development,
    }
}

/// Gathers, for each package the kept dependencies rename, its renames in
/// order.
fn gather_renames(deps: &Vec<Dep>, filter: DepFilter) -> (r: Vec<(String, Vec<RenameWithVersion>)>)
    ensures
        group_names(groups_view(r@)).no_duplicates(),
        forall|name: Seq<char>| #[trigger] group_of(groups_view(r@), name)
            == renames_for(deps_view(deps@), filter, name),
        forall|j: int| 0 <= j < r@.len() ==> (#[trigger] groups_view(r@)[j]).1.len() > 0,
{
    let ghost all = deps_view(deps@);
    let mut groups: Vec<(String, Vec<RenameWithVersion>)> = Vec::new();
    let mut i: usize = 0;
    assert(group_names(groups_view(groups@)) =~= Seq::empty());
    assert forall|name: Seq<char>| #[trigger] group_of(groups_view(groups@), name)
        == renames_for(all.take(0), filter, name) by {
        assert(all.take(0) =~= Seq::<SpecDep>::empty());
    }
    while i < deps.len()
        invariant
            all == deps_view(deps@),
            0 <= i <= deps@.len(),
            group_names(groups_view(groups@)).no_duplicates(),
            forall|name: Seq<char>| #[trigger] group_of(groups_view(groups@), name)
                == renames_for(all.take(i as int), filter, name),
            forall|j: int| 0 <= j < groups@.len() ==> (#[trigger] groups_view(groups@)[j]).1.len() > 0,
        decreases deps@.len() - i,
    {
        let d = &deps[i];
        let ghost before = groups_view(groups@);
        let keep = keeps(filter, d.kind);
        match &d.name_in_toml {
            Some(name_in_toml) => {
                if keep {
                    let entry = RenameWithVersion { rename: name_in_toml.clone(), version_req: d.version_req.clone() };
                    let ghost e = (entry.rename@, entry.version_req@);
                    assert(counts(d@, filter) && e == (d@.name_in_toml.unwrap(), d@.version_req));
                    match find_group(&groups, d.package_name.as_str()) {
                        Some(j) => {
                            let ghost raw = groups@;
                            let mut g = groups.remove(j);
                            let ghost old_vs = versions_view(g.1@);
                            assert(g == raw[j as int]);
                            g.1.push(entry);
                            assert(versions_view(g.1@) =~= old_vs.push(e));
                            let ghost g_name = g.0@;
                            let ghost g_vs = versions_view(g.1@);
                            groups.insert(j, g);
                            proof {
                                assert(groups@ =~= raw.update(j as int, groups@[j as int]));
                                assert(groups_view(groups@)[j as int] == (g_name, g_vs));
                                assert(groups_view(groups@) =~= before.update(j as int, (before[j as int].0, before[j as int].1.push(e))));
                                assert forall|name: Seq<char>| #[trigger] group_of(groups_view(groups@), name)
                                    == renames_for(all.take(i + 1), filter, name) by {
                                    lemma_renames_for_step(all, i as int, filter, name);
                                    lemma_group_of_update(before, j as int, before[j as int].1.push(e), name);
                                    lemma_group_at(before, j as int);
                                    assert(group_of(before, name) == renames_for(all.take(i as int), filter, name));
                                }
                                lemma_group_of_update(before, j as int, before[j as int].1.push(e), Seq::empty());
                                assert forall|k: int| 0 <= k < groups@.len() implies (#[trigger] groups_view(groups@)[k]).1.len() > 0 by {
                                    if k != j {
                                        assert(groups_view(groups@)[k] == before[k]);
                                    }
                                }
                            }
                        },
                        None => {
                            let mut v: Vec<RenameWithVersion> = Vec::new();
                            v.push(entry);
                            groups.push((d.package_name.clone(), v));
                            proof {
                                assert(versions_view(v@) =~= seq![e]);
                                assert(groups_view(groups@) =~= before.push((d.package_name@, seq![e])));
                                assert forall|name: Seq<char>| #[trigger] group_of(groups_view(groups@), name)
                                    == renames_for(all.take(i + 1), filter, name) by {
                                    lemma_renames_for_step(all, i as int, filter, name);
                                    lemma_group_of_push(before, d.package_name@, seq![e], name);
                                    assert(group_of(before, name) == renames_for(all.take(i as int), filter, name));
                                    if name == d.package_name@ {
                                        assert(!(exists|k: int| 0 <= k < before.len() && (#[trigger] before[k]).0 == name));
                                        assert(renames_for(all.take(i as int), filter, name) =~= Seq::empty());
                                    }
                                }
                                lemma_group_of_push(before, d.package_name@, seq![e], Seq::empty());
                                assert forall|k: int| 0 <= k < groups@.len() implies (#[trigger] groups_view(groups@)[k]).1.len() > 0 by {
                                    if k < before.len() {
                                        assert(groups_view(groups@)[k] == before[k]);
                                    }
                                }
                            }
                        },
                    }
                } else {
                    proof {
                        assert forall|name: Seq<char>| #[trigger] group_of(groups_view(groups@), name)
                            == renames_for(all.take(i + 1), filter, name) by {
                            lemma_renames_for_step(all, i as int, filter, name);
                        }
                    }
                }
            },
            None => {
                proof {
                    assert forall|name: Seq<char>| #[trigger] group_of(groups_view(groups@), name)
                        == renames_for(all.take(i + 1), filter, name) by {
                        lemma_renames_for_step(all, i as int, filter, name);
                    }
                }
            },
        }
        i = i + 1;
    }
    assert(all.take(i as int) =~= all);
    groups
}

/// The renames of a package's dependencies, for those the filter keeps: for
/// each package depended on under another name, the one name, or, if it is
/// depended on under several, each name with its version requirement.
pub fn dependency_renames(deps: &Vec<Dep>, filter: DepFilter) -> (r: DependencyRenames)
    ensures
        r.wf(),
        forall|name: Seq<char>| #[trigger] rename_of(r.spec_entries(), name)
            == grouped_rename(renames_for(deps_view(deps@), filter, name)),
{
    let ghost all = deps_view(deps@);
    let groups = gather_renames(deps, filter);
    let ghost gathered = groups_view(groups@);
    let mut entries: Vec<(String, DependencyRename)> = Vec::new();
    let mut k: usize = 0;
    while k < groups.len()
        invariant
            gathered == groups_view(groups@),
            group_names(gathered).no_duplicates(),
            forall|j: int| 0 <= j < gathered.len() ==> (#[trigger] gathered[j]).1.len() > 0,
            0 <= k <= groups@.len(),
            entries@.len() == k,
            forall|j: int| 0 <= j < k ==> (#[trigger] entries_view(entries@)[j]) == (gathered[j].0, grouped_rename(gathered[j].1).unwrap()),
        decreases groups@.len() - k,
    {
        let name = groups[k].0.clone();
        let ghost name_v = name@;
        let ghost g = gathered[k as int];
        assert(g.1 == versions_view(groups@[k as int].1@));
        let rename = if groups[k].1.len() == 1 {
            assert(g.1[0].0 == groups@[k as int].1@[0].rename@);
            DependencyRename::Simple(groups[k].1[0].rename.clone())
        } else {
            DependencyRename::Extended(copy_versions(&groups[k].1))
        };
        assert(rename@ == grouped_rename(g.1).unwrap());
        let ghost rename_v = rename@;
        let ghost prev = entries@;
        entries.push((name, rename));
        proof {
            assert(entries_view(entries@)[k as int] == (name_v, rename_v));
            assert forall|j: int| 0 <= j < k + 1 implies (#[trigger] entries_view(entries@)[j]) == (gathered[j].0, grouped_rename(gathered[j].1).unwrap()) by {
                if j < k {
                    assert(entries@[j] == prev[j]);
                    assert(entries_view(prev)[j] == (gathered[j].0, grouped_rename(gathered[j].1).unwrap()));
                }
            }
        }
        k = k + 1;
    }
    let r = DependencyRenames { entries };
    proof {
        let ev = r.spec_entries();
        assert(entry_names(ev) =~= group_names(gathered));
        assert forall|name: Seq<char>| #[trigger] rename_of(ev, name) == grouped_rename(renames_for(all, filter, name)) by {
            assert(group_of(gathered, name) == renames_for(all, filter, name));
            if exists|j: int| 0 <= j < gathered.len() && (#[trigger] gathered[j]).0 == name {
                let j = choose|j: int| 0 <= j < gathered.len() && (#[trigger] gathered[j]).0 == name;
                lemma_group_at(gathered, j);
                assert(ev[j] == (gathered[j].0, grouped_rename(gathered[j].1).unwrap()));
                lemma_rename_of_at(ev, j);
            } else {
                assert forall|j: int| 0 <= j < ev.len() implies (#[trigger] ev[j]).0 != name by {
                    assert(ev[j] == (gathered[j].0, grouped_rename(gathered[j].1).unwrap()));
                }
                lemma_rename_of_absent(ev, name);
            }
        }
    }
    r
}

} // verus!
