//! The `rustc` invocations and build phases of the derivations that build a
//! package's build script, library and binaries.

use vstd::prelude::*;

use crate::renames::{DependencyRenames, SpecRename, lib_name_for, lib_name_for_dep};
use crate::text::{decimal, push_str, u64_to_string};

verus! {

/// The view of a list of strings.
pub open spec fn strings_view(v: Seq<String>) -> Seq<Seq<char>> {
    v.map_values(|s: String| s@)
}

/// Appends `s` to the list of strings `out`.
pub fn push_string(out: &mut Vec<String>, s: String)
    ensures
        strings_view(final(out)@) == strings_view(old(out)@).push(s@),
{
    out.push(s);
    assert(strings_view(out@) =~= strings_view(old(out)@).push(s@));
}

/// The string made of the characters of `t`.
pub fn string_of(t: &str) -> (r: String)
    ensures
        r@ == t@,
{
    let mut r = String::new();
    push_str(&mut r, t);
    r
}

/// Appends copies of the strings of `items` to `out`.
pub fn extend_strings(out: &mut Vec<String>, items: &Vec<String>)
    ensures
        strings_view(final(out)@) == strings_view(old(out)@) + strings_view(items@),
{
    let ghost start = strings_view(out@);
    let mut i: usize = 0;
    while i < items.len()
        invariant
            0 <= i <= items@.len(),
            strings_view(out@) == start + strings_view(items@).take(i as int),
        decreases items@.len() - i,
    {
        push_string(out, items[i].clone());
        assert(strings_view(items@).take(i + 1) =~= strings_view(items@).take(i as int).push(items@[i as int]@));
        i = i + 1;
    }
    assert(strings_view(items@).take(i as int) =~= strings_view(items@));
}

/// The editions of Rust.
#[derive(Clone, Copy, Debug, PartialEq, Eq, Structural)]
pub enum Edition {
    Edition2015,
    Edition2018,
    Edition2021,
    Edition2024,
    EditionFuture,
}

/// The name of an edition, as `rustc --edition` takes it.
pub open spec fn spec_edition(e: Edition) -> Seq<char> {
    match e {
        Edition::Edition2015 => "2015"@,
        Edition::Edition2018 => "2018"@,
        Edition::Edition2021 => "2021"@,
        Edition::Edition2024 => "2024"@,
        Edition::EditionFuture => "future"@,
    }
}

/// The position of a released edition among the editions, oldest first.
pub open spec fn edition_position(e: Edition) -> Option<int> {
    match e {
        Edition::Edition2015 => Some(0),
        Edition::Edition2018 => Some(1),
        Edition::Edition2021 => Some(2),
        Edition::Edition2024 => Some(3),
        Edition::EditionFuture => None,
    }
}

/// Each released edition is named after its year, in decimal: editions
/// come every three years from 2015 on, so the edition at position `k` is
/// the one of 2015 + 3k; the future edition is named `future`. Two editions
/// with the same name are the same edition.
pub proof fn lemma_edition_names(e: Edition, other: Edition)
    ensures
        edition_position(e) matches Some(k) ==> spec_edition(e) == decimal(2015 + 3 * k),
        edition_position(e) is None ==> spec_edition(e) == "future"@,
        spec_edition(e) == spec_edition(other) ==> e == other,
{
    reveal_strlit("2015");
    reveal_strlit("2018");
    reveal_strlit("2021");
    reveal_strlit("2024");
    reveal_strlit("future");
    reveal_with_fuel(crate::text::decimal_digits, 5);
    assert(decimal(2015) =~= "2015"@);
    assert(decimal(2018) =~= "2018"@);
    assert(decimal(2021) =~= "2021"@);
    assert(decimal(2024) =~= "2024"@);
    if spec_edition(e) == spec_edition(other) && e != other {
        let x = spec_edition(e);
        let y = spec_edition(other);
        assert(x.len() == y.len());
        assert(x[0] == y[0]);
        assert(x[2] == y[2] && x[3] == y[3]);
    }
}

/// The name of an edition, as `rustc --edition` takes it.
pub fn edition_as_str(edition: Edition) -> (r: &'static str)
    ensures
        r@ == spec_edition(edition),
{
    match edition {
        Edition::Edition2015 => "2015",
        Edition::Edition2018 => "2018",
        Edition::Edition2021 => "2021",
        Edition::Edition2024 => "2024",
        Edition::EditionFuture => "future",
    }
}

/// The kinds of library a crate can be built as.
#[derive(Clone, Copy, Debug, PartialEq, Eq, Structural)]
pub enum LibraryFormat {
    Cdylib,
    Dylib,
    Lib,
    ProcMacro,
    Rlib,
    Staticlib,
}

/// The name of a library format, as `rustc --crate-type` takes it.
pub open spec fn spec_format(f: LibraryFormat) -> Seq<char> {
    match f {
        LibraryFormat::Cdylib => "cdylib"@,
        LibraryFormat::Dylib => "dylib"@,
        LibraryFormat::Lib => "lib"@,
        LibraryFormat::ProcMacro => "proc-macro"@,
        LibraryFormat::Rlib => "rlib"@,
        LibraryFormat::Staticlib => "staticlib"@,
    }
}

impl LibraryFormat {
    /// The name of the format, as `rustc --crate-type` takes it.
    pub fn as_str(self) -> (r: &'static str)
        ensures
            r@ == spec_format(self),
    {
        match self {
            LibraryFormat::Cdylib => "cdylib",
            LibraryFormat::Dylib => "dylib",
            LibraryFormat::Lib => "lib",
            LibraryFormat::ProcMacro => "proc-macro",
            LibraryFormat::Rlib => "rlib",
            LibraryFormat::Staticlib => "staticlib",
        }
    }
}

/// The options of a compilation that come from the Cargo profile.
#[derive(Clone, Debug)]
pub struct BuildOpts {
    pub codegen_units: Option<u32>,
    pub extra_rustc_args: Vec<String>,
}

/// The library target of a package.
#[derive(Clone, Debug)]
pub struct LibraryCrate {
    pub build_opts: BuildOpts,
    /// The name of the library target.
    pub name: String,
    /// The path of the library's root module from the package's root.
    pub path: String,
    /// The library formats to build.
    pub formats: Vec<LibraryFormat>,
}

impl LibraryCrate {
    /// Whether the library is a procedural macro: its one format is
    /// `proc-macro`.
    pub fn is_proc_macro(&self) -> (r: bool)
        ensures
            r == (self.formats@ == seq![LibraryFormat::ProcMacro]),
    {
        let r = self.formats.len() == 1 && self.formats[0] == LibraryFormat::ProcMacro;
        proof {
            if self.formats@.len() == 1 && self.formats@[0] == LibraryFormat::ProcMacro {
                assert(self.formats@ =~= seq![LibraryFormat::ProcMacro]);
            }
        }
        r
    }
}

/// A binary target of a package.
#[derive(Clone, Debug)]
pub struct BinaryCrate {
    pub build_opts: BuildOpts,
    pub name: String,
    /// The path of the binary's root module from the package's root.
    pub path: String,
    pub required_features: Vec<String>,
}

/// The build script of a package.
#[derive(Clone, Debug)]
pub struct BuildScript {
    pub build_opts: BuildOpts,
    /// The renames of the build dependencies.
    pub dependency_renames: DependencyRenames,
    /// The path of the build script from the package's root.
    pub path: String,
}

/// The formats joined with commas, as `rustc --crate-type` takes them.
pub open spec fn joined_formats(formats: Seq<LibraryFormat>) -> Seq<char>
    decreases formats.len(),
{
    if formats.len() == 0 {
        Seq::empty()
    } else if formats.len() == 1 {
        spec_format(formats[0])
    } else {
        joined_formats(formats.drop_last()) + ","@ + spec_format(formats.last())
    }
}

/// A crate to compile with `rustc`.
pub struct Crate {
    pub path: String,
    pub name: String,
    /// The `--crate-type` argument.
    pub types_arg: String,
    pub is_proc_macro: bool,
    /// Whether `--target` applies to the crate: it is not a build script
    /// or a procedural macro, which run on the host.
    pub is_compiled_for_host: bool,
    pub deps_renames: DependencyRenames,
    pub codegen_units: Option<u32>,
    pub extra_rustc_args: Vec<String>,
}

impl Crate {
    /// The crate of a binary target.
    pub fn from_binary(binary: &BinaryCrate, deps_renames: &DependencyRenames) -> (r: Crate)
        ensures
            r.path@ == binary.path@,
            r.name@ == binary.name@,
            r.types_arg@ == "bin"@,
            !r.is_proc_macro,
            r.is_compiled_for_host,
            r.deps_renames.spec_entries() == deps_renames.spec_entries(),
            r.codegen_units == binary.build_opts.codegen_units,
            strings_view(r.extra_rustc_args@) == strings_view(binary.build_opts.extra_rustc_args@),
    {
        let mut extra: Vec<String> = Vec::new();
        extend_strings(&mut extra, &binary.build_opts.extra_rustc_args);
        Crate {
            path: binary.path.clone(),
            name: binary.name.clone(),
            types_arg: string_of("bin"),
            is_proc_macro: false,
            is_compiled_for_host: true,
            deps_renames: copy_renames(deps_renames),
            codegen_units: binary.build_opts.codegen_units,
            extra_rustc_args: extra,
        }
    }

    /// The crate of a build script.
    pub fn from_build_script(build_script: &BuildScript) -> (r: Crate)
        ensures
            r.path@ == build_script.path@,
            r.name@ == "build_script_build"@,
            r.types_arg@ == "bin"@,
            !r.is_proc_macro,
            !r.is_compiled_for_host,
            r.deps_renames.spec_entries() == build_script.dependency_renames.spec_entries(),
            r.codegen_units == build_script.build_opts.codegen_units,
            strings_view(r.extra_rustc_args@) == strings_view(build_script.build_opts.extra_rustc_args@),
    {
        let mut extra: Vec<String> = Vec::new();
        extend_strings(&mut extra, &build_script.build_opts.extra_rustc_args);
        Crate {
            path: build_script.path.clone(),
            name: string_of("build_script_build"),
            types_arg: string_of("bin"),
            is_proc_macro: false,
            is_compiled_for_host: false,
            deps_renames: copy_renames(&build_script.dependency_renames),
            codegen_units: build_script.build_opts.codegen_units,
            extra_rustc_args: extra,
        }
    }

    /// The crate of a library target: its formats joined with commas as the
    /// crate type; a procedural macro is compiled for the host.
    pub fn from_library(library: &LibraryCrate, deps_renames: &DependencyRenames) -> (r: Crate)
        ensures
            r.path@ == library.path@,
            r.name@ == library.name@,
            r.types_arg@ == joined_formats(library.formats@),
            r.is_proc_macro == (library.formats@ == seq![LibraryFormat::ProcMacro]),
            r.is_compiled_for_host == !r.is_proc_macro,
            r.deps_renames.spec_entries() == deps_renames.spec_entries(),
            r.codegen_units == library.build_opts.codegen_units,
            strings_view(r.extra_rustc_args@) == strings_view(library.build_opts.extra_rustc_args@),
    {
        let mut types_arg = String::new();
        let mut i: usize = 0;
        while i < library.formats.len()
            invariant
                0 <= i <= library.formats@.len(),
                types_arg@ == joined_formats(library.formats@.take(i as int)),
            decreases library.formats@.len() - i,
        {
            let ghost t = library.formats@.take(i + 1);
            assert(t.drop_last() =~= library.formats@.take(i as int));
            if i > 0 {
                push_str(&mut types_arg, ",");
            } else {
                assert(library.formats@.take(0) =~= Seq::<LibraryFormat>::empty());
            }
            push_str(&mut types_arg, library.formats[i].as_str());
            assert(types_arg@ =~= joined_formats(t));
            i = i + 1;
        }
        assert(library.formats@.take(i as int) =~= library.formats@);
        let is_proc_macro = library.is_proc_macro();
        let mut extra: Vec<String> = Vec::new();
        extend_strings(&mut extra, &library.build_opts.extra_rustc_args);
        Crate {
            path: library.path.clone(),
            name: library.name.clone(),
            types_arg,
            is_proc_macro,
            is_compiled_for_host: !is_proc_macro,
            deps_renames: copy_renames(deps_renames),
            codegen_units: library.build_opts.codegen_units,
            extra_rustc_args: extra,
        }
    }
}

/// A copy of the renames.
fn copy_renames(renames: &DependencyRenames) -> (r: DependencyRenames)
    ensures
        r.spec_entries() == renames.spec_entries(),
{
    let entries = renames.entries();
    let mut out: Vec<(String, crate::renames::DependencyRename)> = Vec::new();
    let mut i: usize = 0;
    while i < entries.len()
        invariant
            0 <= i <= entries@.len(),
            crate::renames::entries_view(out@) == crate::renames::entries_view(entries@).take(i as int),
        decreases entries@.len() - i,
    {
        let rename = match &entries[i].1 {
            crate::renames::DependencyRename::Simple(s) => crate::renames::DependencyRename::Simple(s.clone()),
            crate::renames::DependencyRename::Extended(v) => {
                let mut w: Vec<crate::renames::RenameWithVersion> = Vec::new();
                let mut j: usize = 0;
                while j < v.len()
                    invariant
                        0 <= j <= v@.len(),
                        crate::renames::versions_view(w@) == crate::renames::versions_view(v@).take(j as int),
                    decreases v@.len() - j,
                {
                    let ghost prev = w@;
                    w.push(v[j].copy());
                    assert(crate::renames::versions_view(w@) =~= crate::renames::versions_view(prev).push(
                        crate::renames::versions_view(v@)[j as int],
                    ));
                    assert(crate::renames::versions_view(v@).take(j + 1) =~= crate::renames::versions_view(v@).take(
                        j as int,
                    ).push(crate::renames::versions_view(v@)[j as int]));
                    j = j + 1;
                }
                assert(crate::renames::versions_view(v@).take(j as int) =~= crate::renames::versions_view(v@));
                crate::renames::DependencyRename::Extended(w)
            },
        };
        let ghost prev = out@;
        let ghost ev = crate::renames::entries_view(entries@);
        out.push((entries[i].0.clone(), rename));
        assert(crate::renames::entries_view(out@) =~= crate::renames::entries_view(prev).push(ev[i as int]));
        assert(ev.take(i + 1) =~= ev.take(i as int).push(ev[i as int]));
        i = i + 1;
    }
    assert(crate::renames::entries_view(entries@).take(i as int) =~= crate::renames::entries_view(entries@));
    DependencyRenames::from_entries(out)
}

/// A direct dependency of a crate, as far as its `rustc` arguments go: the
/// package, its library and the output path of its derivation.
#[derive(Clone, Debug)]
pub struct DirectDep {
    pub package_name: String,
    pub version: String,
    pub lib_name: String,
    pub lib_is_proc_macro: bool,
    pub out_path: String,
}

/// The view of a direct dependency.
pub struct SpecDirectDep {
    pub package_name: Seq<char>,
    pub version: Seq<char>,
    pub lib_name: Seq<char>,
    pub lib_is_proc_macro: bool,
    pub out_path: Seq<char>,
}

impl View for DirectDep {
    type V = SpecDirectDep;

    open spec fn view(&self) -> SpecDirectDep {
        SpecDirectDep {
            package_name: self.package_name@,
            version: self.version@,
            lib_name: self.lib_name@,
            lib_is_proc_macro: self.lib_is_proc_macro,
            out_path: self.out_path@,
        }
    }
}

/// The view of direct dependencies.
pub open spec fn direct_deps_view(v: Seq<DirectDep>) -> Seq<SpecDirectDep> {
    v.map_values(|d: DirectDep| d@)
}

/// The `--extern` arguments of one dependency: the name it is known under,
/// and the path of its library file, whose extension is the dynamic
/// library one for a procedural macro and `rlib` otherwise.
pub open spec fn dep_args(d: SpecDirectDep, renames: Seq<(Seq<char>, SpecRename)>, dll_ext: Seq<char>) -> Seq<Seq<char>> {
    seq![
        "--extern"@,
        lib_name_for(renames, d.package_name, d.version, d.lib_name) + "="@ + d.out_path + "/lib"@ + d.lib_name
            + "."@ + if d.lib_is_proc_macro {
            dll_ext
        } else {
            "rlib"@
        },
    ]
}

/// The `--extern` arguments of the dependencies, in order.
pub open spec fn deps_args(deps: Seq<SpecDirectDep>, renames: Seq<(Seq<char>, SpecRename)>, dll_ext: Seq<char>) -> Seq<Seq<char>>
    decreases deps.len(),
{
    if deps.len() == 0 {
        Seq::empty()
    } else {
        deps_args(deps.drop_last(), renames, dll_ext) + dep_args(deps.last(), renames, dll_ext)
    }
}

/// The `--extern` arguments that give `rustc` the libraries of the direct
/// dependencies.
pub fn dependencies_rustc_args(deps: &Vec<DirectDep>, renames: &DependencyRenames, dll_ext: &str) -> (r: Vec<String>)
    ensures
        strings_view(r@) == deps_args(direct_deps_view(deps@), renames.spec_entries(), dll_ext@),
{
    let ghost all = direct_deps_view(deps@);
    let mut out: Vec<String> = Vec::new();
    let mut i: usize = 0;
    while i < deps.len()
        invariant
            all == direct_deps_view(deps@),
            0 <= i <= deps@.len(),
            strings_view(out@) == deps_args(all.take(i as int), renames.spec_entries(), dll_ext@),
        decreases deps@.len() - i,
    {
        let d = &deps[i];
        let lib_name = lib_name_for_dep(renames, d.package_name.as_str(), d.version.as_str(), d.lib_name.as_str());
        let mut arg = lib_name;
        push_str(&mut arg, "=");
        push_str(&mut arg, d.out_path.as_str());
        push_str(&mut arg, "/lib");
        push_str(&mut arg, d.lib_name.as_str());
        push_str(&mut arg, ".");
        if d.lib_is_proc_macro {
            push_str(&mut arg, dll_ext);
        } else {
            push_str(&mut arg, "rlib");
        }
        push_string(&mut out, string_of("--extern"));
        push_string(&mut out, arg);
        proof {
            assert(all.take(i + 1).drop_last() =~= all.take(i as int));
            assert(all.take(i + 1).last() == d@);
            assert(strings_view(out@) =~= deps_args(all.take(i + 1), renames.spec_entries(), dll_ext@));
        }
        i = i + 1;
    }
    assert(all.take(i as int) =~= all);
    out
}

/// The `--cfg` arguments that enable the features, in order.
pub open spec fn features_args(features: Seq<Seq<char>>) -> Seq<Seq<char>>
    decreases features.len(),
{
    if features.len() == 0 {
        Seq::empty()
    } else {
        features_args(features.drop_last()) + seq!["--cfg"@, "feature=\\\""@ + features.last() + "\\\""@]
    }
}

/// The `--cfg` arguments that enable the features.
pub fn feature_rustc_args(features: &Vec<String>) -> (r: Vec<String>)
    ensures
        strings_view(r@) == features_args(strings_view(features@)),
{
    let ghost all = strings_view(features@);
    let mut out: Vec<String> = Vec::new();
    let mut i: usize = 0;
    while i < features.len()
        invariant
            all == strings_view(features@),
            0 <= i <= features@.len(),
            strings_view(out@) == features_args(all.take(i as int)),
        decreases features@.len() - i,
    {
        let mut arg = string_of("feature=\\\"");
        push_str(&mut arg, features[i].as_str());
        push_str(&mut arg, "\\\"");
        push_string(&mut out, string_of("--cfg"));
        push_string(&mut out, arg);
        proof {
            assert(all.take(i + 1).drop_last() =~= all.take(i as int));
            assert(all.take(i + 1).last() == features@[i as int]@);
            assert(strings_view(out@) =~= features_args(all.take(i + 1)));
        }
        i = i + 1;
    }
    assert(all.take(i as int) =~= all);
    out
}

/// The `codegen-units` option.
pub open spec fn codegen_arg(units: Option<u32>) -> Seq<char> {
    "codegen-units="@ + decimal(
        match units {
            Some(n) => n as int,
            None => 1,
        },
    )
}

/// The arguments every compilation starts with.
pub open spec fn base_args(path: Seq<char>, name: Seq<char>, edition: Edition, release: bool) -> Seq<Seq<char>> {
    seq![
        path,
        "--crate-name"@,
        name,
        "--out-dir"@,
        "$out"@,
        "--edition"@,
        spec_edition(edition),
        "--cap-lints allow"@,
        "--remap-path-prefix $NIX_BUILD_TOP=/"@,
        "--color always"@,
        "--codegen"@,
        if release {
            "opt-level=3"@
        } else {
            "debuginfo=2"@
        },
        "--codegen"@,
    ]
}

/// The arguments of `rustc` to compile the crate `c`: where the crate is
/// and what it is called, the edition, the optimisation level, the codegen
/// units and crate type, the `proc_macro` crate for a procedural macro, the
/// dependencies, the target unless it runs on the host, the features, and
/// the extra arguments of the profile.
pub open spec fn rustc_args(
    path: Seq<char>,
    name: Seq<char>,
    types_arg: Seq<char>,
    is_proc_macro: bool,
    is_compiled_for_host: bool,
    renames: Seq<(Seq<char>, SpecRename)>,
    codegen_units: Option<u32>,
    extra: Seq<Seq<char>>,
    deps: Seq<SpecDirectDep>,
    features: Seq<Seq<char>>,
    release: bool,
    target: Option<Seq<char>>,
    edition: Edition,
    dll_ext: Seq<char>,
) -> Seq<Seq<char>> {
    base_args(path, name, edition, release) + seq![codegen_arg(codegen_units), "--crate-type"@, types_arg] + (
    if is_proc_macro {
        seq!["--extern proc_macro"@]
    } else {
        Seq::empty()
    }) + deps_args(deps, renames, dll_ext) + (match target {
        Some(t) if is_compiled_for_host => seq!["--target"@, t],
        _ => Seq::empty(),
    }) + features_args(features) + extra
}

/// The `rustc` arguments of the crate `c`, as [`rustc_args`] spells them
/// out.
pub open spec fn crate_rustc_args(
    c: &Crate,
    deps: Seq<SpecDirectDep>,
    features: Seq<Seq<char>>,
    release: bool,
    target: Option<Seq<char>>,
    edition: Edition,
    dll_ext: Seq<char>,
) -> Seq<Seq<char>> {
    rustc_args(
        c.path@,
        c.name@,
        c.types_arg@,
        c.is_proc_macro,
        c.is_compiled_for_host,
        c.deps_renames.spec_entries(),
        c.codegen_units,
        strings_view(c.extra_rustc_args@),
        deps,
        features,
        release,
        target,
        edition,
        dll_ext,
    )
}

/// The view of an optional string.
pub open spec fn opt_str_view(t: Option<&str>) -> Option<Seq<char>> {
    match t {
        Some(s) => Some(s@),
        None => None,
    }
}

/// The arguments of `rustc` to compile the crate `cr8`.
pub fn build_rustc_args(
    cr8: &Crate,
    direct_deps: &Vec<DirectDep>,
    features: &Vec<String>,
    is_release: bool,
    target: Option<&str>,
    edition: Edition,
    dll_ext: &str,
) -> (r: Vec<String>)
    ensures
        strings_view(r@) == crate_rustc_args(
            cr8,
            direct_deps_view(direct_deps@),
            strings_view(features@),
            is_release,
            opt_str_view(target),
            edition,
            dll_ext@,
        ),
{
    let mut out: Vec<String> = Vec::new();
    push_string(&mut out, cr8.path.clone());
    push_string(&mut out, string_of("--crate-name"));
    push_string(&mut out, cr8.name.clone());
    push_string(&mut out, string_of("--out-dir"));
    push_string(&mut out, string_of("$out"));
    push_string(&mut out, string_of("--edition"));
    push_string(&mut out, string_of(edition_as_str(edition)));
    push_string(&mut out, string_of("--cap-lints allow"));
    push_string(&mut out, string_of("--remap-path-prefix $NIX_BUILD_TOP=/"));
    push_string(&mut out, string_of("--color always"));
    push_string(&mut out, string_of("--codegen"));
    push_string(&mut out, string_of(if is_release { "opt-level=3" } else { "debuginfo=2" }));
    push_string(&mut out, string_of("--codegen"));
    let ghost base = strings_view(out@);
    assert(base =~= base_args(cr8.path@, cr8.name@, edition, is_release));
    let units: u32 = match cr8.codegen_units {
        Some(n) => n,
        None => 1,
    };
    let mut codegen = string_of("codegen-units=");
    let digits = u64_to_string(units as u64);
    push_str(&mut codegen, digits.as_str());
    push_string(&mut out, codegen);
    push_string(&mut out, string_of("--crate-type"));
    push_string(&mut out, cr8.types_arg.clone());
    let ghost with_type = strings_view(out@);
    assert(with_type =~= base + seq![codegen_arg(cr8.codegen_units), "--crate-type"@, cr8.types_arg@]);
    if cr8.is_proc_macro {
        push_string(&mut out, string_of("--extern proc_macro"));
    }
    let ghost with_macro = strings_view(out@);
    assert(with_macro =~= with_type + if cr8.is_proc_macro {
        seq!["--extern proc_macro"@]
    } else {
        Seq::<Seq<char>>::empty()
    });
    let dep_args = dependencies_rustc_args(direct_deps, &cr8.deps_renames, dll_ext);
    extend_strings(&mut out, &dep_args);
    let ghost with_deps = strings_view(out@);
    match target {
        Some(t) => {
            if cr8.is_compiled_for_host {
                push_string(&mut out, string_of("--target"));
                push_string(&mut out, string_of(t));
            }
        },
        None => {},
    }
    let ghost target_args = match opt_str_view(target) {
        Some(t) if cr8.is_compiled_for_host => seq!["--target"@, t],
        _ => Seq::<Seq<char>>::empty(),
    };
    assert(strings_view(out@) =~= with_deps + target_args);
    let feature_args = feature_rustc_args(features);
    extend_strings(&mut out, &feature_args);
    extend_strings(&mut out, &cr8.extra_rustc_args);
    assert(strings_view(out@) =~= crate_rustc_args(
        cr8,
        direct_deps_view(direct_deps@),
        strings_view(features@),
        is_release,
        opt_str_view(target),
        edition,
        dll_ext@,
    ));
    out
}

} // verus!
