//! The arguments of the derivation that builds a library on its own: its
//! `rustc` invocation and its phases.

use vstd::prelude::*;

use crate::phases::{push_spaced, spaced};
use crate::renames::{DependencyRename, DependencyRenames, SpecRename, rename_of, str_eq};
use crate::rustc::{Edition, edition_as_str, extend_strings, push_string, spec_edition, string_of, strings_view};
use crate::text::{decimal, push_str, u64_to_string};

verus! {

/// What a built library tells the libraries that depend on it.
#[derive(Clone, Debug)]
pub struct DepLib {
    pub is_proc_macro: bool,
    pub lib_name: String,
    pub package_name: String,
    pub version: String,
    /// The output path of the library's derivation.
    pub out_path: String,
}

/// The view of a built library.
pub struct SpecDepLib {
    pub is_proc_macro: bool,
    pub lib_name: Seq<char>,
    pub package_name: Seq<char>,
    pub version: Seq<char>,
    pub out_path: Seq<char>,
}

impl View for DepLib {
    type V = SpecDepLib;

    open spec fn view(&self) -> SpecDepLib {
        SpecDepLib {
            is_proc_macro: self.is_proc_macro,
            lib_name: self.lib_name@,
            package_name: self.package_name@,
            version: self.version@,
            out_path: self.out_path@,
        }
    }
}

/// The view of built libraries.
pub open spec fn dep_libs_view(v: Seq<DepLib>) -> Seq<SpecDepLib> {
    v.map_values(|d: DepLib| d@)
}

/// The name of the first rename made for exactly the version `version`.
pub open spec fn first_for_version(versions: Seq<(Seq<char>, Seq<char>)>, version: Seq<char>) -> Option<Seq<char>>
    decreases versions.len(),
{
    if versions.len() == 0 {
        None
    } else if versions[0].1 == version {
        Some(versions[0].0)
    } else {
        first_for_version(versions.drop_first(), version)
    }
}

/// The name a built library is known under: its rename, the rename made
/// for its version, or else its library name.
pub open spec fn known_name(renames: Seq<(Seq<char>, SpecRename)>, d: SpecDepLib) -> Seq<char> {
    match rename_of(renames, d.package_name) {
        None => d.lib_name,
        Some(SpecRename::Simple(r)) => r,
        Some(SpecRename::Extended(vs)) => match first_for_version(vs, d.version) {
            Some(r) => r,
            None => d.lib_name,
        },
    }
}

/// The `--extern` arguments of the built libraries, in order.
pub open spec fn lib_deps_args(deps: Seq<SpecDepLib>, renames: Seq<(Seq<char>, SpecRename)>, dll_ext: Seq<char>) -> Seq<Seq<char>>
    decreases deps.len(),
{
    if deps.len() == 0 {
        Seq::empty()
    } else {
        let d = deps.last();
        lib_deps_args(deps.drop_last(), renames, dll_ext) + seq![
            "--extern"@,
            known_name(renames, d) + "="@ + d.out_path + "/lib"@ + d.lib_name + "."@ + if d.is_proc_macro {
                dll_ext
            } else {
                "rlib"@
            },
        ]
    }
}

/// The arguments of the derivation that builds a library.
pub struct BuildLibArgs {
    pub codegen_units: Option<u32>,
    pub crate_renames: DependencyRenames,
    pub edition: Edition,
    pub extra_rustc_args: Vec<String>,
    pub features: Vec<String>,
    pub is_proc_macro: bool,
    pub lib_name: String,
    pub lib_path: String,
    pub package_name: String,
    pub version: String,
}

impl BuildLibArgs {
    /// The directory, from the root of the build, the library is built
    /// into.
    pub open spec fn spec_out_dir() -> Seq<char> {
        "target/lib"@
    }

    /// The name of the library the built library is known under.
    fn lib_name_of(&self, d: &DepLib) -> (r: String)
        ensures
            r@ == known_name(self.crate_renames.spec_entries(), d@),
    {
        match self.crate_renames.get(d.package_name.as_str()) {
            None => d.lib_name.clone(),
            Some(DependencyRename::Simple(rename)) => rename.clone(),
            Some(DependencyRename::Extended(versions)) => {
                let ghost vs = crate::renames::versions_view(versions@);
                let mut i: usize = 0;
                assert(vs.skip(0) =~= vs);
                while i < versions.len()
                    invariant
                        vs == crate::renames::versions_view(versions@),
                        rename_of(self.crate_renames.spec_entries(), d@.package_name) == Some(SpecRename::Extended(vs)),
                        0 <= i <= versions@.len(),
                        first_for_version(vs, d@.version) == first_for_version(vs.skip(i as int), d@.version),
                    decreases versions@.len() - i,
                {
                    proof {
                        assert(vs.skip(i as int).drop_first() =~= vs.skip(i + 1));
                        assert(vs.skip(i as int)[0] == vs[i as int]);
                    }
                    if str_eq(versions[i].version_req.as_str(), d.version.as_str()) {
                        return versions[i].rename.clone();
                    }
                    i = i + 1;
                }
                d.lib_name.clone()
            },
        }
    }

    /// The `--extern {name}={path}` arguments that give `rustc` the built
    /// libraries `deps`.
    pub fn dependencies_args(&self, deps: &Vec<DepLib>, dll_ext: &str) -> (r: Vec<String>)
        ensures
            strings_view(r@) == lib_deps_args(dep_libs_view(deps@), self.crate_renames.spec_entries(), dll_ext@),
    {
        let ghost all = dep_libs_view(deps@);
        let mut out: Vec<String> = Vec::new();
        let mut i: usize = 0;
        while i < deps.len()
            invariant
                all == dep_libs_view(deps@),
                0 <= i <= deps@.len(),
                strings_view(out@) == lib_deps_args(all.take(i as int), self.crate_renames.spec_entries(), dll_ext@),
            decreases deps@.len() - i,
        {
            let d = &deps[i];
            let mut arg = self.lib_name_of(d);
            push_str(&mut arg, "=");
            push_str(&mut arg, d.out_path.as_str());
            push_str(&mut arg, "/lib");
            push_str(&mut arg, d.lib_name.as_str());
            push_str(&mut arg, ".");
            push_str(&mut arg, if d.is_proc_macro { dll_ext } else { "rlib" });
            push_string(&mut out, string_of("--extern"));
            push_string(&mut out, arg);
            proof {
                assert(all.take(i + 1).drop_last() =~= all.take(i as int));
                assert(all.take(i + 1).last() == d@);
                assert(strings_view(out@) =~= lib_deps_args(all.take(i + 1), self.crate_renames.spec_entries(), dll_ext@));
            }
            i = i + 1;
        }
        assert(all.take(i as int) =~= all);
        out
    }

    /// The arguments of `rustc` that build this library: where it is and
    /// what it is called, the optimisation level, the codegen units, the
    /// `proc-macro` crate for a procedural macro, the libraries it depends
    /// on, the target unless it is a procedural macro, the features and the
    /// extra arguments of the profile.
    pub open spec fn spec_rustc_args(
        &self,
        release: bool,
        deps: Seq<SpecDepLib>,
        target: Option<Seq<char>>,
        dll_ext: Seq<char>,
    ) -> Seq<Seq<char>> {
        seq![
            self.lib_path@,
            "--crate-name"@,
            self.lib_name@,
            "--crate-type lib"@,
            "--out-dir"@,
            Self::spec_out_dir(),
            "--edition"@,
            spec_edition(self.edition),
            "--cap-lints allow"@,
            "--remap-path-prefix=$NIX_BUILD_TOP=/"@,
            "--color always"@,
            "-C"@,
            if release {
                "opt-level=3"@
            } else {
                "debuginfo=2"@
            },
            "-C"@,
            "codegen-units="@ + decimal(
                match self.codegen_units {
                    Some(n) => n as int,
                    None => 1,
                },
            ),
        ] + (if self.is_proc_macro {
            seq!["--extern proc-macro"@]
        } else {
            Seq::empty()
        }) + lib_deps_args(deps, self.crate_renames.spec_entries(), dll_ext) + (match target {
            Some(t) if !self.is_proc_macro => seq!["--target"@, t],
            _ => Seq::empty(),
        }) + crate::rustc::features_args(strings_view(self.features@)) + strings_view(self.extra_rustc_args@)
    }

    /// The arguments of `rustc` that build this library.
    pub fn rustc_args(&self, release: bool, deps: &Vec<DepLib>, target: Option<&str>, dll_ext: &str) -> (r: Vec<String>)
        ensures
            strings_view(r@) == self.spec_rustc_args(
                release,
                dep_libs_view(deps@),
                crate::rustc::opt_str_view(target),
                dll_ext@,
            ),
    {
        let mut out: Vec<String> = Vec::new();
        push_string(&mut out, self.lib_path.clone());
        push_string(&mut out, string_of("--crate-name"));
        push_string(&mut out, self.lib_name.clone());
        push_string(&mut out, string_of("--crate-type lib"));
        push_string(&mut out, string_of("--out-dir"));
        push_string(&mut out, string_of("target/lib"));
        push_string(&mut out, string_of("--edition"));
        push_string(&mut out, string_of(edition_as_str(self.edition)));
        push_string(&mut out, string_of("--cap-lints allow"));
        push_string(&mut out, string_of("--remap-path-prefix=$NIX_BUILD_TOP=/"));
        push_string(&mut out, string_of("--color always"));
        push_string(&mut out, string_of("-C"));
        push_string(&mut out, string_of(if release { "opt-level=3" } else { "debuginfo=2" }));
        push_string(&mut out, string_of("-C"));
        let units: u32 = match self.codegen_units {
            Some(n) => n,
            None => 1,
        };
        let mut codegen = string_of("codegen-units=");
        let digits = u64_to_string(units as u64);
        push_str(&mut codegen, digits.as_str());
        push_string(&mut out, codegen);
        let ghost fixed = strings_view(out@);
        if self.is_proc_macro {
            push_string(&mut out, string_of("--extern proc-macro"));
        }
        let ghost with_macro = strings_view(out@);
        let dep_args = self.dependencies_args(deps, dll_ext);
        extend_strings(&mut out, &dep_args);
        let ghost with_deps = strings_view(out@);
        match target {
            Some(t) => {
                if !self.is_proc_macro {
                    push_string(&mut out, string_of("--target"));
                    push_string(&mut out, string_of(t));
                }
            },
            None => {},
        }
        let ghost with_target = strings_view(out@);
        let mut k: usize = 0;
        let ghost fs = strings_view(self.features@);
        while k < self.features.len()
            invariant
                0 <= k <= self.features@.len(),
                fs == strings_view(self.features@),
                strings_view(out@) == with_target + crate::rustc::features_args(fs.take(k as int)),
            decreases self.features@.len() - k,
        {
            let mut arg = string_of("feature=\\\"");
            push_str(&mut arg, self.features[k].as_str());
            push_str(&mut arg, "\\\"");
            push_string(&mut out, string_of("--cfg"));
            push_string(&mut out, arg);
            proof {
                let t = fs.take(k + 1);
                assert(t.drop_last() =~= fs.take(k as int));
                assert(t.last() == self.features@[k as int]@);
                assert(strings_view(out@) =~= with_target + crate::rustc::features_args(t));
            }
            k = k + 1;
        }
        assert(fs.take(k as int) =~= fs);
        extend_strings(&mut out, &self.extra_rustc_args);
        proof {
            let spec = self.spec_rustc_args(release, dep_libs_view(deps@), crate::rustc::opt_str_view(target), dll_ext@);
            assert(with_macro =~= fixed + if self.is_proc_macro {
                seq!["--extern proc-macro"@]
            } else {
                Seq::<Seq<char>>::empty()
            });
            assert(with_target =~= with_deps + match crate::rustc::opt_str_view(target) {
                Some(t) if !self.is_proc_macro => seq!["--target"@, t],
                _ => Seq::<Seq<char>>::empty(),
            });
            assert(strings_view(out@) =~= spec);
        }
        out
    }

    /// The name of the derivation: the package's name and version, then
    /// `lib`.
    pub fn derivation_name(&self) -> (r: String)
        ensures
            r@ == self.package_name@ + "-"@ + self.version@ + "-lib"@,
    {
        let mut out = string_of(self.package_name.as_str());
        push_str(&mut out, "-");
        push_str(&mut out, self.version.as_str());
        push_str(&mut out, "-lib");
        out
    }

    /// The build phase: `rustc` with the library's arguments.
    pub fn build_phase(&self, release: bool, deps: &Vec<DepLib>, target: Option<&str>, dll_ext: &str) -> (r: String)
        ensures
            r@ == "runHook preBuild\nrustc"@ + spaced(
                self.spec_rustc_args(release, dep_libs_view(deps@), crate::rustc::opt_str_view(target), dll_ext@),
            ) + "\nrunHook postBuild\n"@,
    {
        let args = self.rustc_args(release, deps, target, dll_ext);
        let mut out = string_of("runHook preBuild\nrustc");
        push_spaced(&mut out, &args);
        push_str(&mut out, "\nrunHook postBuild\n");
        out
    }

    /// The install phase: the built files go into the `lib` output.
    pub fn install_phase(&self) -> (r: String)
        ensures
            r@ == "runHook preInstall\nmkdir -p $lib/lib\ncp -r "@ + Self::spec_out_dir() + "/* $lib/lib\nrunHook postInstall\n"@,
    {
        let mut out = string_of("runHook preInstall\nmkdir -p $lib/lib\ncp -r ");
        push_str(&mut out, "target/lib");
        push_str(&mut out, "/* $lib/lib\nrunHook postInstall\n");
        out
    }
}

} // verus!
