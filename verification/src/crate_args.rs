//! The crate-specific arguments of nixpkgs's `buildRustCrate`, made from a
//! package of the resolved workspace.

use vstd::prelude::*;

use crate::phases::PackageAttrs;
use crate::renames::{DepFilter, DependencyRenames, dependency_renames, deps_view, grouped_rename, rename_of, renames_for};
use crate::rustc::{LibraryFormat, edition_as_str, extend_strings, spec_edition, spec_format, string_of, strings_view};
use crate::targets::{
    CrateType, PackageInfo, TargetKind, spec_lib_format, are_binaries_of, bin_targets, binary_crates, bins_readable, deps_of, dep_list,
    first_lib, lemma_first_lib, relative_to, strip_root, under_root, BuildSetting,
};
use crate::text::{chars_of, push_char};
use crate::vendor::SourceId;

verus! {

/// The name `rustc --crate-type` gives a crate type.
pub open spec fn spec_crate_type(t: CrateType) -> Seq<char> {
    match t {
        CrateType::Bin => "bin"@,
        CrateType::Lib => "lib"@,
        CrateType::Rlib => "rlib"@,
        CrateType::Dylib => "dylib"@,
        CrateType::Cdylib => "cdylib"@,
        CrateType::Staticlib => "staticlib"@,
        CrateType::ProcMacro => "proc-macro"@,
    }
}

impl CrateType {
    /// The name `rustc --crate-type` gives the crate type.
    pub fn as_str(self) -> (r: &'static str)
        ensures
            r@ == spec_crate_type(self),
    {
        match self {
            CrateType::Bin => "bin",
            CrateType::Lib => "lib",
            CrateType::Rlib => "rlib",
            CrateType::Dylib => "dylib",
            CrateType::Cdylib => "cdylib",
            CrateType::Staticlib => "staticlib",
            CrateType::ProcMacro => "proc-macro",
        }
    }
}

/// Each crate type has a name of its own: two crate types with the same
/// `--crate-type` name are the same crate type.
pub proof fn lemma_crate_type_names_distinct(a: CrateType, b: CrateType)
    ensures
        spec_crate_type(a) == spec_crate_type(b) ==> a == b,
{
    reveal_strlit("bin");
    reveal_strlit("lib");
    reveal_strlit("rlib");
    reveal_strlit("dylib");
    reveal_strlit("cdylib");
    reveal_strlit("staticlib");
    reveal_strlit("proc-macro");
    if spec_crate_type(a) == spec_crate_type(b) && a != b {
        let x = spec_crate_type(a);
        let y = spec_crate_type(b);
        assert(x.len() == y.len());
        assert(x[0] == y[0]);
        assert(x[x.len() - 1] == y[y.len() - 1]);
    }
}

/// Each library format has a name of its own: two formats with the same
/// `--crate-type` name are the same format.
pub proof fn lemma_format_names_distinct(a: LibraryFormat, b: LibraryFormat)
    ensures
        spec_format(a) == spec_format(b) ==> a == b,
{
    reveal_strlit("lib");
    reveal_strlit("rlib");
    reveal_strlit("dylib");
    reveal_strlit("cdylib");
    reveal_strlit("staticlib");
    reveal_strlit("proc-macro");
    if spec_format(a) == spec_format(b) && a != b {
        let x = spec_format(a);
        let y = spec_format(b);
        assert(x.len() == y.len());
        assert(x[0] == y[0]);
    }
}

/// A library target is built in the format its crate type names: the
/// format of a library crate type has the crate type's own name, so
/// `buildRustCrate` and `rustc` are given the same crate type, a `cdylib`
/// is built as a `cdylib` and a `proc-macro` as a `proc-macro`.
pub proof fn lemma_lib_format_named_as_crate_type(t: CrateType)
    requires
        t != CrateType::Bin,
    ensures
        spec_format(spec_lib_format(t)) == spec_crate_type(t),
{
}

/// A description as `buildRustCrate` can export it: line feeds turned into
/// spaces and double quotes escaped with a backslash.
pub open spec fn escaped_description(s: Seq<char>) -> Seq<char>
    decreases s.len(),
{
    if s.len() == 0 {
        Seq::empty()
    } else {
        escaped_description(s.drop_last()) + if s.last() == '\n' {
            seq![' ']
        } else if s.last() == '"' {
            seq!['\\', '"']
        } else {
            seq![s.last()]
        }
    }
}

/// The description with line feeds turned into spaces and double quotes
/// escaped: `buildRustCrate` exports it as a shell variable without
/// escaping it.
pub fn escape_description(s: &str) -> (r: String)
    ensures
        r@ == escaped_description(s@),
{
    let chars = chars_of(s);
    let mut out = String::new();
    let mut i: usize = 0;
    while i < chars.len()
        invariant
            0 <= i <= chars@.len(),
            chars@ == s@,
            out@ == escaped_description(chars@.take(i as int)),
        decreases chars@.len() - i,
    {
        let c = chars[i];
        if c == '\n' {
            push_char(&mut out, ' ');
        } else if c == '"' {
            push_char(&mut out, '\\');
            push_char(&mut out, '"');
        } else {
            push_char(&mut out, c);
        }
        proof {
            let t = chars@.take(i + 1);
            assert(t.drop_last() =~= chars@.take(i as int));
            assert(t.last() == c);
            assert(out@ =~= escaped_description(t));
        }
        i = i + 1;
    }
    assert(chars@.take(i as int) =~= chars@);
    out
}

/// A binary to build, as `buildRustCrate` takes it.
#[derive(Clone, Debug)]
pub struct CrateBinInfos {
    pub name: String,
    pub path: String,
    pub required_features: Vec<String>,
}

/// The crate-specific arguments of `buildRustCrate`.
pub struct BuildCrateArgs {
    pub authors: Vec<String>,
    /// The path of the build script, unless it is the default `build.rs`.
    pub build: Option<String>,
    pub codegen_units: Option<u32>,
    /// The binaries to build; only those of the root package.
    pub crate_bin: Vec<CrateBinInfos>,
    pub crate_name: String,
    pub crate_renames: DependencyRenames,
    pub description: Option<String>,
    pub edition: Option<String>,
    pub extra_rustc_opts: Vec<String>,
    pub extra_rustc_opts_for_build_rs: Vec<String>,
    pub features: Vec<String>,
    pub homepage: Option<String>,
    /// The crate types of the library, but `lib`, which is the default.
    pub lib_crate_types: Vec<String>,
    /// The name of the library, if it is not the package's.
    pub lib_name: Option<String>,
    /// The path of the library, if it is not the default `src/lib.rs`.
    pub lib_path: Option<String>,
    pub license_file: Option<String>,
    pub links: Option<String>,
    pub proc_macro: bool,
    pub readme: Option<String>,
    pub repository: Option<String>,
    pub rust_version: Option<String>,
    pub version: String,
    pub workspace_member: Option<String>,
}

/// The view of an optional string.
pub open spec fn opt_view(s: Option<String>) -> Option<Seq<char>> {
    match s {
        Some(t) => Some(t@),
        None => None,
    }
}

/// A copy of an optional string.
pub(crate) fn copy_opt(s: &Option<String>) -> (r: Option<String>)
    ensures
        opt_view(r) == opt_view(*s),
{
    match s {
        Some(t) => Some(t.clone()),
        None => None,
    }
}

/// The crate types of a library, without `lib`, by name.
pub open spec fn non_lib_types(types: Seq<CrateType>) -> Seq<Seq<char>>
    decreases types.len(),
{
    if types.len() == 0 {
        Seq::empty()
    } else {
        let rest = non_lib_types(types.drop_last());
        if types.last() == CrateType::Lib {
            rest
        } else {
            rest.push(spec_crate_type(types.last()))
        }
    }
}

/// A target is a procedural macro: a library with that crate type.
pub open spec fn is_proc_macro_target(k: TargetKind) -> bool {
    k matches TargetKind::Lib(types) && exists|i: int| 0 <= i < types@.len() && types@[i] == CrateType::ProcMacro
}

/// The build script path to pass, unless it is the default one.
pub open spec fn build_arg(b: Option<BuildSetting>) -> Option<Seq<char>> {
    match b {
        Some(BuildSetting::SingleScript(s)) => if s@ == "build.rs"@ {
            None
        } else {
            Some(s@)
        },
        _ => None,
    }
}

/// The binary to build for the binary target `t` of `p`.
pub open spec fn is_bin_info_of(b: CrateBinInfos, t: crate::targets::TargetInfo, p: PackageInfo) -> bool {
    &&& b.name@ == t.name@
    &&& b.path@ == relative_to(t.src_path->0@, p.root@)
    &&& strings_view(b.required_features@) == strings_view(t.required_features@)
}

/// Whether a target is a procedural macro.
fn target_is_proc_macro(k: &TargetKind) -> (r: bool)
    ensures
        r == is_proc_macro_target(*k),
{
    match k {
        TargetKind::Lib(types) => {
            let mut i: usize = 0;
            while i < types.len()
                invariant
                    0 <= i <= types@.len(),
                    *k matches TargetKind::Lib(ts) && ts@ == types@,
                    forall|j: int| 0 <= j < i ==> types@[j] != CrateType::ProcMacro,
                decreases types@.len() - i,
            {
                if types[i] == CrateType::ProcMacro {
                    assert(types@[i as int] == CrateType::ProcMacro);
                    return true;
                }
                i = i + 1;
            }
            false
        },
        _ => false,
    }
}

/// Whether two strings are equal.
fn str_eq(a: &str, b: &str) -> (r: bool)
    ensures
        r == (a@ == b@),
{
    crate::renames::str_eq(a, b)
}

impl BuildCrateArgs {
    /// The id of the crate's sources: its name and version.
    pub fn source_id(&self) -> (r: SourceId)
        ensures
            r.package_name@ == self.crate_name@,
            r.version@ == self.version@,
    {
        SourceId { package_name: self.crate_name.clone(), version: self.version.clone() }
    }

    /// The arguments of `buildRustCrate` for the package `p`, whose
    /// metadata is `attrs`; the root package's binaries are built. The
    /// features, `rustc` flags and codegen units come from the resolution of
    /// the workspace and the profile.
    pub fn new(
        p: &PackageInfo,
        attrs: &PackageAttrs,
        is_root: bool,
        features: &Vec<String>,
        rustflags: &Vec<String>,
        codegen_units: Option<u32>,
    ) -> (r: BuildCrateArgs)
        requires
            bins_readable(*p),
            first_lib(p.targets@) matches Some(i) ==> p.targets@[i].src_path matches Some(s) ==> under_root(
                s@,
                p.root@,
            ),
        ensures
            strings_view(r.authors@) == strings_view(attrs.authors@),
            opt_view(r.build) == build_arg(p.build),
            r.codegen_units == codegen_units,
            !is_root ==> r.crate_bin@.len() == 0,
            is_root ==> r.crate_bin@.len() == bin_targets(p.targets@).len() && forall|i: int|
                0 <= i < r.crate_bin@.len() ==> is_bin_info_of(#[trigger] r.crate_bin@[i], bin_targets(p.targets@)[i], *p),
            r.crate_name@ == p.name@,
            r.crate_renames.wf(),
            forall|name: Seq<char>| #[trigger] rename_of(r.crate_renames.spec_entries(), name)
                == grouped_rename(renames_for(deps_view(deps_of(p.deps@)), DepFilter::NonDev, name)),
            opt_view(r.description) == match attrs.description {
                Some(d) => Some(escaped_description(d@)),
                None => None,
            },
            opt_view(r.edition) == Some(spec_edition(attrs.edition)),
            strings_view(r.extra_rustc_opts@) == strings_view(rustflags@),
            r.extra_rustc_opts_for_build_rs@.len() == 0,
            strings_view(r.features@) == strings_view(features@),
            opt_view(r.homepage) == opt_view(attrs.homepage),
            strings_view(r.lib_crate_types@) == match first_lib(p.targets@) {
                Some(i) => non_lib_types(p.targets@[i].kind->Lib_0@),
                None => Seq::empty(),
            },
            opt_view(r.lib_name) == match first_lib(p.targets@) {
                Some(i) => if p.targets@[i].name@ != p.name@ {
                    Some(p.targets@[i].name@)
                } else {
                    None
                },
                None => None,
            },
            opt_view(r.lib_path) == match first_lib(p.targets@) {
                Some(i) => match p.targets@[i].src_path {
                    Some(s) => if relative_to(s@, p.root@) != "src/lib.rs"@ {
                        Some(relative_to(s@, p.root@))
                    } else {
                        None
                    },
                    None => None,
                },
                None => None,
            },
            opt_view(r.license_file) == opt_view(attrs.license_file),
            opt_view(r.links) == opt_view(attrs.links),
            r.proc_macro == exists|i: int| 0 <= i < p.targets@.len() && is_proc_macro_target(#[trigger] p.targets@[i].kind),
            opt_view(r.readme) == opt_view(attrs.readme),
            opt_view(r.repository) == opt_view(attrs.repository),
            opt_view(r.rust_version) == opt_view(attrs.rust_version),
            r.version@ == p.version@,
            r.workspace_member is None,
    {
        let mut authors: Vec<String> = Vec::new();
        extend_strings(&mut authors, &attrs.authors);
        let build = match &p.build {
            Some(BuildSetting::SingleScript(s)) => {
                if str_eq(s.as_str(), "build.rs") {
                    None
                } else {
                    Some(s.clone())
                }
            },
            _ => None,
        };
        let bins = binary_crates(p, is_root);
        let mut crate_bin: Vec<CrateBinInfos> = Vec::new();
        let mut i: usize = 0;
        while i < bins.len()
            invariant
                0 <= i <= bins@.len(),
                are_binaries_of(*p, is_root, bins@),
                crate_bin@.len() == i,
                forall|j: int| 0 <= j < i ==> is_bin_info_of(#[trigger] crate_bin@[j], bin_targets(p.targets@)[j], *p),
            decreases bins@.len() - i,
        {
            let mut required: Vec<String> = Vec::new();
            extend_strings(&mut required, &bins[i].required_features);
            crate_bin.push(CrateBinInfos { name: bins[i].name.clone(), path: bins[i].path.clone(), required_features: required });
            i = i + 1;
        }
        let deps = dep_list(&p.deps);
        let crate_renames = dependency_renames(&deps, DepFilter::NonDev);
        let description = match &attrs.description {
            Some(d) => Some(escape_description(d.as_str())),
            None => None,
        };
        let mut extra: Vec<String> = Vec::new();
        extend_strings(&mut extra, rustflags);
        let mut feats: Vec<String> = Vec::new();
        extend_strings(&mut feats, features);
        let mut lib_crate_types: Vec<String> = Vec::new();
        let mut lib_name: Option<String> = None;
        let mut lib_path: Option<String> = None;
        proof {
            lemma_first_lib(p.targets@);
        }
        match crate::targets::find_lib(&p.targets) {
            Some(idx) => {
                let t = &p.targets[idx];
                match &t.kind {
                    TargetKind::Lib(types) => {
                        let mut k: usize = 0;
                        while k < types.len()
                            invariant
                                0 <= k <= types@.len(),
                                strings_view(lib_crate_types@) == non_lib_types(types@.take(k as int)),
                            decreases types@.len() - k,
                        {
                            let ghost prev = strings_view(lib_crate_types@);
                            proof {
                                let tk = types@.take(k + 1);
                                assert(tk.drop_last() =~= types@.take(k as int));
                                assert(tk.last() == types@[k as int]);
                            }
                            if types[k] != CrateType::Lib {
                                crate::rustc::push_string(&mut lib_crate_types, string_of(types[k].as_str()));
                            }
                            k = k + 1;
                        }
                        assert(types@.take(k as int) =~= types@);
                    },
                    _ => {},
                }
                if !str_eq(t.name.as_str(), p.name.as_str()) {
                    lib_name = Some(t.name.clone());
                }
                match &t.src_path {
                    Some(s) => {
                        let rel = strip_root(s.as_str(), p.root.as_str());
                        if !str_eq(rel.as_str(), "src/lib.rs") {
                            lib_path = Some(rel);
                        }
                    },
                    None => {},
                }
            },
            None => {},
        }
        let mut proc_macro = false;
        let mut j: usize = 0;
        while j < p.targets.len()
            invariant
                0 <= j <= p.targets@.len(),
                proc_macro == exists|i: int| 0 <= i < j && is_proc_macro_target(#[trigger] p.targets@[i].kind),
            decreases p.targets@.len() - j,
        {
            if target_is_proc_macro(&p.targets[j].kind) {
                proc_macro = true;
            }
            proof {
                if is_proc_macro_target(p.targets@[j as int].kind) {
                    assert(exists|i: int| 0 <= i < j + 1 && is_proc_macro_target(#[trigger] p.targets@[i].kind));
                }
            }
            j = j + 1;
        }
        BuildCrateArgs {
            authors,
            build,
            codegen_units,
            crate_bin,
            crate_name: p.name.clone(),
            crate_renames,
            description,
            edition: Some(string_of(edition_as_str(attrs.edition))),
            extra_rustc_opts: extra,
            extra_rustc_opts_for_build_rs: Vec::new(),
            features: feats,
            homepage: copy_opt(&attrs.homepage),
            lib_crate_types,
            lib_name,
            lib_path,
            license_file: copy_opt(&attrs.license_file),
            links: copy_opt(&attrs.links),
            proc_macro,
            readme: copy_opt(&attrs.readme),
            repository: copy_opt(&attrs.repository),
            rust_version: copy_opt(&attrs.rust_version),
            version: p.version.clone(),
            workspace_member: None,
        }
    }
}

} // verus!
