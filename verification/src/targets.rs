//! The targets of a package, as the build graph reads them from its
//! manifest: its library, binaries and build script.

use vstd::prelude::*;

use crate::renames::{Dep, DepFilter, dependency_renames, deps_view, grouped_rename, rename_of, renames_for};
use crate::rustc::{BinaryCrate, BuildOpts, BuildScript, LibraryCrate, LibraryFormat, strings_view, extend_strings, string_of};
use crate::text::{chars_of, string_from_range};

verus! {

/// The crate types Cargo knows.
#[derive(Clone, Copy, Debug, PartialEq, Eq, Structural)]
pub enum CrateType {
    Bin,
    Lib,
    Rlib,
    Dylib,
    Cdylib,
    Staticlib,
    ProcMacro,
}

/// The kinds of targets of a package.
#[derive(Clone, Debug)]
pub enum TargetKind {
    /// A library, with its crate types.
    Lib(Vec<CrateType>),
    Bin,
    Test,
    Bench,
    Example,
    CustomBuild,
}

/// A target of a package.
#[derive(Clone, Debug)]
pub struct TargetInfo {
    pub kind: TargetKind,
    pub name: String,
    /// The path of the target's root module, or `None` for a metabuild.
    pub src_path: Option<String>,
    pub required_features: Vec<String>,
}

/// The `build` key of a package's manifest.
#[derive(Clone, Debug)]
pub enum BuildSetting {
    /// `build = true` or `build = false`.
    Auto(bool),
    /// The path of the build script.
    SingleScript(String),
    /// Several build scripts.
    MultipleScript,
}

/// A package of a resolved workspace, with what the build graph reads of
/// it.
#[derive(Clone, Debug)]
pub struct PackageInfo {
    pub name: String,
    pub version: String,
    /// The directory of the package.
    pub root: String,
    /// Whether the package comes from a path rather than a registry or Git.
    pub is_path_source: bool,
    pub targets: Vec<TargetInfo>,
    /// The `build` key of the manifest, if present.
    pub build: Option<BuildSetting>,
    /// The profile options of compilations for the target platform.
    pub target_opts: BuildOpts,
    /// The profile options of compilations for the host (build scripts and
    /// procedural macros).
    pub host_opts: BuildOpts,
    /// The dependencies, each with the position of the package depended on
    /// in the workspace.
    pub deps: Vec<(usize, Dep)>,
}

/// `root` followed by a slash is a prefix of `path`.
pub open spec fn under_root(path: Seq<char>, root: Seq<char>) -> bool {
    &&& root.len() + 1 <= path.len()
    &&& path.subrange(0, root.len() as int) == root
    &&& path[root.len() as int] == '/'
}

/// The path relative to `root`, for a path under it.
pub open spec fn relative_to(path: Seq<char>, root: Seq<char>) -> Seq<char> {
    path.subrange(root.len() as int + 1, path.len() as int)
}

/// The part of `path` after `root` and a slash; `path` must be under
/// `root`.
pub fn strip_root(path: &str, root: &str) -> (r: String)
    requires
        under_root(path@, root@),
    ensures
        r@ == relative_to(path@, root@),
{
    let chars = chars_of(path);
    let root_chars = chars_of(root);
    assert(chars@ == path@ && root_chars@ == root@);
    assert(root_chars@.len() + 1 <= chars@.len());
    let n = chars.len();
    let from = root_chars.len() + 1;
    string_from_range(&chars, from, n)
}

/// The library format of a library crate type.
pub open spec fn spec_lib_format(t: CrateType) -> LibraryFormat {
    match t {
        CrateType::Lib => LibraryFormat::Lib,
        CrateType::Rlib => LibraryFormat::Rlib,
        CrateType::Dylib => LibraryFormat::Dylib,
        CrateType::Cdylib => LibraryFormat::Cdylib,
        CrateType::Staticlib => LibraryFormat::Staticlib,
        _ => LibraryFormat::ProcMacro,
    }
}

/// The position of the first library target, if any.
pub open spec fn first_lib(targets: Seq<TargetInfo>) -> Option<int>
    decreases targets.len(),
{
    if targets.len() == 0 {
        None
    } else if targets[0].kind is Lib {
        Some(0)
    } else {
        match first_lib(targets.drop_first()) {
            Some(i) => Some(i + 1),
            None => None,
        }
    }
}

/// The package's library target can be read: its source is a path under
/// the package's root, and its crate types are library ones.
pub open spec fn lib_readable(p: PackageInfo) -> bool {
    match first_lib(p.targets@) {
        Some(i) => {
            &&& p.targets@[i].src_path matches Some(s) && under_root(s@, p.root@)
            &&& forall|k: int| 0 <= k < p.targets@[i].kind->Lib_0@.len() ==> (#[trigger] p.targets@[i].kind->Lib_0@[k]) != CrateType::Bin
        },
        None => true,
    }
}

/// The first library target is a library target.
pub proof fn lemma_first_lib(targets: Seq<TargetInfo>)
    ensures
        first_lib(targets) matches Some(i) ==> 0 <= i < targets.len() && targets[i].kind is Lib,
    decreases targets.len(),
{
    if targets.len() > 0 && !(targets[0].kind is Lib) {
        lemma_first_lib(targets.drop_first());
        if let Some(i) = first_lib(targets.drop_first()) {
            assert(targets.drop_first()[i] == targets[i + 1]);
        }
    }
}

/// The position of the first library target, if any.
pub fn find_lib(targets: &Vec<TargetInfo>) -> (r: Option<usize>)
    ensures
        match r {
            Some(i) => first_lib(targets@) == Some(i as int) && i < targets@.len(),
            None => first_lib(targets@) is None,
        },
{
    let mut i: usize = 0;
    assert(targets@.skip(0) =~= targets@);
    while i < targets.len()
        invariant
            0 <= i <= targets@.len(),
            first_lib(targets@) == match first_lib(targets@.skip(i as int)) {
                Some(j) => Some(j + i),
                None => None,
            },
            forall|k: int| 0 <= k < i ==> !(targets@[k].kind is Lib),
        decreases targets@.len() - i,
    {
        proof {
            assert(targets@.skip(i as int).drop_first() =~= targets@.skip(i + 1));
            assert(targets@.skip(i as int)[0] == targets@[i as int]);
        }
        match &targets[i].kind {
            TargetKind::Lib(_) => {
                return Some(i);
            },
            _ => {},
        }
        i = i + 1;
    }
    None
}

/// A copy of the profile options.
pub fn copy_opts(o: &BuildOpts) -> (r: BuildOpts)
    ensures
        r.codegen_units == o.codegen_units,
        strings_view(r.extra_rustc_args@) == strings_view(o.extra_rustc_args@),
{
    let mut extra: Vec<String> = Vec::new();
    extend_strings(&mut extra, &o.extra_rustc_args);
    BuildOpts { codegen_units: o.codegen_units, extra_rustc_args: extra }
}

/// `r` is the library of the package `p`: none without a library target,
/// and otherwise one built from the first library target: its name, its path
/// from the package's root, its formats, and the profile options of the
/// host if it is a procedural macro.
pub open spec fn is_library_of(p: PackageInfo, r: Option<LibraryCrate>) -> bool {
    match first_lib(p.targets@) {
        None => r is None,
        Some(i) => r matches Some(lib) && {
            let t = p.targets@[i];
            let types = t.kind->Lib_0@;
            let is_proc_macro = exists|k: int| 0 <= k < types.len() && types[k] == CrateType::ProcMacro;
            &&& lib.name@ == t.name@
            &&& lib.path@ == relative_to(t.src_path->0@, p.root@)
            &&& lib.formats@ == types.map_values(|c: CrateType| spec_lib_format(c))
            &&& lib.build_opts.codegen_units == (if is_proc_macro {
                p.host_opts.codegen_units
            } else {
                p.target_opts.codegen_units
            })
            &&& strings_view(lib.build_opts.extra_rustc_args@) == (if is_proc_macro {
                strings_view(p.host_opts.extra_rustc_args@)
            } else {
                strings_view(p.target_opts.extra_rustc_args@)
            })
        },
    }
}

/// The library of the package, built from its first library target.
pub fn library_crate(p: &PackageInfo) -> (r: Option<LibraryCrate>)
    requires
        lib_readable(*p),
    ensures
        is_library_of(*p, r),
{
    let idx = match find_lib(&p.targets) {
        Some(i) => i,
        None => {
            return None;
        },
    };
    let t = &p.targets[idx];
    proof {
        lemma_first_lib(p.targets@);
    }
    assert(t.src_path is Some);
    let path = match &t.src_path {
        Some(s) => strip_root(s.as_str(), p.root.as_str()),
        None => {
            return None;
        },
    };
    let types = match &t.kind {
        TargetKind::Lib(types) => types,
        _ => {
            return None;
        },
    };
    let mut formats: Vec<LibraryFormat> = Vec::new();
    let mut is_proc_macro = false;
    let mut k: usize = 0;
    while k < types.len()
        invariant
            0 <= k <= types@.len(),
            formats@ == types@.take(k as int).map_values(|c: CrateType| spec_lib_format(c)),
            is_proc_macro == exists|j: int| 0 <= j < k && types@[j] == CrateType::ProcMacro,
        decreases types@.len() - k,
    {
        let f = match types[k] {
            CrateType::Lib => LibraryFormat::Lib,
            CrateType::Rlib => LibraryFormat::Rlib,
            CrateType::Dylib => LibraryFormat::Dylib,
            CrateType::Cdylib => LibraryFormat::Cdylib,
            CrateType::Staticlib => LibraryFormat::Staticlib,
            CrateType::ProcMacro => {
                is_proc_macro = true;
                LibraryFormat::ProcMacro
            },
            CrateType::Bin => LibraryFormat::ProcMacro,
        };
        formats.push(f);
        proof {
            assert(types@.take(k + 1).map_values(|c: CrateType| spec_lib_format(c)) =~= types@.take(k as int).map_values(
                |c: CrateType| spec_lib_format(c),
            ).push(f));
            if types@[k as int] == CrateType::ProcMacro {
                assert(exists|j: int| 0 <= j < k + 1 && types@[j] == CrateType::ProcMacro);
            }
        }
        k = k + 1;
    }
    assert(types@.take(k as int) =~= types@);
    let build_opts = if is_proc_macro {
        copy_opts(&p.host_opts)
    } else {
        copy_opts(&p.target_opts)
    };
    Some(LibraryCrate { build_opts, name: t.name.clone(), path, formats })
}

/// The build script path a `build` setting gives, if any: `build.rs` for
/// `build = true`, none for `build = false` or no setting.
pub open spec fn build_script_path(b: Option<BuildSetting>) -> Option<Seq<char>> {
    match b {
        None => None,
        Some(BuildSetting::Auto(true)) => Some("build.rs"@),
        Some(BuildSetting::Auto(false)) => None,
        Some(BuildSetting::SingleScript(p)) => Some(p@),
        Some(BuildSetting::MultipleScript) => None,
    }
}

/// `r` is the build script of the package `p`: the one its manifest gives,
/// if any, compiled with the profile options of the host and with the
/// renames of the build dependencies.
pub open spec fn is_build_script_of(p: PackageInfo, r: Option<BuildScript>) -> bool {
    match build_script_path(p.build) {
        None => r is None,
        Some(path) => r matches Some(s) && {
            &&& s.path@ == path
            &&& s.build_opts.codegen_units == p.host_opts.codegen_units
            &&& strings_view(s.build_opts.extra_rustc_args@) == strings_view(p.host_opts.extra_rustc_args@)
            &&& s.dependency_renames.wf()
            &&& forall|name: Seq<char>| #[trigger] rename_of(s.dependency_renames.spec_entries(), name)
                == grouped_rename(renames_for(deps_view(deps_of(p.deps@)), DepFilter::Build, name))
        },
    }
}

/// The build script of the package, if its manifest gives one; several
/// build scripts are not supported.
pub fn build_script(p: &PackageInfo) -> (r: Option<BuildScript>)
    requires
        !(p.build matches Some(BuildSetting::MultipleScript)),
    ensures
        is_build_script_of(*p, r),
{
    let path = match &p.build {
        None => {
            return None;
        },
        Some(BuildSetting::Auto(true)) => string_of("build.rs"),
        Some(BuildSetting::Auto(false)) => {
            return None;
        },
        Some(BuildSetting::SingleScript(s)) => s.clone(),
        Some(BuildSetting::MultipleScript) => {
            return None;
        },
    };
    let deps = dep_list(&p.deps);
    Some(BuildScript {
        build_opts: copy_opts(&p.host_opts),
        dependency_renames: dependency_renames(&deps, DepFilter::Build),
        path,
    })
}

/// The dependencies of a package, without the positions of the packages.
pub open spec fn deps_of(deps: Seq<(usize, Dep)>) -> Seq<Dep> {
    deps.map_values(|d: (usize, Dep)| d.1)
}

/// A copy of a dependency.
fn copy_dep(d: &Dep) -> (r: Dep)
    ensures
        r@ == d@,
{
    Dep {
        kind: d.kind,
        name_in_toml: match &d.name_in_toml {
            Some(n) => Some(n.clone()),
            None => None,
        },
        package_name: d.package_name.clone(),
        version_req: d.version_req.clone(),
    }
}

/// The dependencies of a package, without the positions of the packages.
pub fn dep_list(deps: &Vec<(usize, Dep)>) -> (r: Vec<Dep>)
    ensures
        deps_view(r@) == deps_view(deps_of(deps@)),
{
    let mut out: Vec<Dep> = Vec::new();
    let mut i: usize = 0;
    while i < deps.len()
        invariant
            0 <= i <= deps@.len(),
            deps_view(out@) == deps_view(deps_of(deps@)).take(i as int),
        decreases deps@.len() - i,
    {
        let ghost prev = out@;
        out.push(copy_dep(&deps[i].1));
        assert(deps_view(out@) =~= deps_view(prev).push(deps[i as int].1@));
        assert(deps_view(deps_of(deps@)).take(i + 1) =~= deps_view(deps_of(deps@)).take(i as int).push(deps[i as int].1@));
        i = i + 1;
    }
    assert(deps_view(deps_of(deps@)).take(i as int) =~= deps_view(deps_of(deps@)));
    out
}

/// The binary targets whose source is a path.
pub open spec fn bin_targets(targets: Seq<TargetInfo>) -> Seq<TargetInfo>
    decreases targets.len(),
{
    if targets.len() == 0 {
        Seq::empty()
    } else {
        let rest = bin_targets(targets.drop_last());
        let t = targets.last();
        if t.kind is Bin && t.src_path is Some {
            rest.push(t)
        } else {
            rest
        }
    }
}

/// The binaries of the package can be read: their sources are under the
/// package's root.
pub open spec fn bins_readable(p: PackageInfo) -> bool {
    forall|i: int| 0 <= i < p.targets@.len() && p.targets@[i].kind is Bin ==> (#[trigger] p.targets@[i].src_path matches Some(
        s,
    ) ==> under_root(s@, p.root@))
}

/// The binary built from the target `t`.
pub open spec fn is_binary_of(b: BinaryCrate, t: TargetInfo, p: PackageInfo) -> bool {
    &&& b.name@ == t.name@
    &&& b.path@ == relative_to(t.src_path->0@, p.root@)
    &&& strings_view(b.required_features@) == strings_view(t.required_features@)
    &&& b.build_opts.codegen_units == p.target_opts.codegen_units
    &&& strings_view(b.build_opts.extra_rustc_args@) == strings_view(p.target_opts.extra_rustc_args@)
}

/// `r` holds the binaries of the package `p`: one for each binary target
/// with a path, in order, if the package is the root of the build graph;
/// none otherwise.
pub open spec fn are_binaries_of(p: PackageInfo, is_root: bool, r: Seq<BinaryCrate>) -> bool {
    &&& !is_root ==> r.len() == 0
    &&& is_root ==> {
        &&& r.len() == bin_targets(p.targets@).len()
        &&& forall|i: int| 0 <= i < r.len() ==> is_binary_of(#[trigger] r[i], bin_targets(p.targets@)[i], p)
    }
}

/// The binaries of the package, if it is the root of the build graph.
pub fn binary_crates(p: &PackageInfo, is_root: bool) -> (r: Vec<BinaryCrate>)
    requires
        bins_readable(*p),
    ensures
        are_binaries_of(*p, is_root, r@),
{
    let mut out: Vec<BinaryCrate> = Vec::new();
    if !is_root {
        return out;
    }
    let mut i: usize = 0;
    while i < p.targets.len()
        invariant
            bins_readable(*p),
            0 <= i <= p.targets@.len(),
            out@.len() == bin_targets(p.targets@.take(i as int)).len(),
            forall|k: int| 0 <= k < out@.len() ==> is_binary_of(#[trigger] out@[k], bin_targets(p.targets@.take(i as int))[k], *p),
        decreases p.targets@.len() - i,
    {
        let t = &p.targets[i];
        let ghost prev = out@;
        proof {
            assert(p.targets@.take(i + 1).drop_last() =~= p.targets@.take(i as int));
            assert(p.targets@.take(i + 1).last() == p.targets@[i as int]);
        }
        match (&t.kind, &t.src_path) {
            (TargetKind::Bin, Some(src)) => {
                let path = strip_root(src.as_str(), p.root.as_str());
                let mut required: Vec<String> = Vec::new();
                extend_strings(&mut required, &t.required_features);
                let b = BinaryCrate {
                    build_opts: copy_opts(&p.target_opts),
                    name: t.name.clone(),
                    path,
                    required_features: required,
                };
                out.push(b);
                proof {
                    let bt = bin_targets(p.targets@.take(i + 1));
                    assert(bt == bin_targets(p.targets@.take(i as int)).push(p.targets@[i as int]));
                    assert forall|k: int| 0 <= k < out@.len() implies is_binary_of(#[trigger] out@[k], bt[k], *p) by {
                        if k < prev.len() {
                            assert(out@[k] == prev[k]);
                        }
                    }
                }
            },
            _ => {},
        }
        i = i + 1;
    }
    assert(p.targets@.take(i as int) =~= p.targets@);
    out
}

} // verus!
