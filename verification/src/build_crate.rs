//! The arguments of `pkgs.buildRustCrate` for one crate, in the form where
//! the sources of the crate are either vendored or part of the workspace.

use vstd::prelude::*;

use crate::crate_args::{copy_opt, opt_view};
use crate::graph::Dependencies;
use crate::package::{opt_chars, path_file_name};
use crate::phases::PackageAttrs;
use crate::renames::str_eq;
use crate::rustc::{edition_as_str, extend_strings, spec_edition, string_of, strings_view};
use crate::targets::{PackageInfo, relative_to, strip_root, under_root};
use crate::text::{chars_of, push_str};
use crate::attrset::{Attrset, NixDerivation, ascii_bytes, gets};
use crate::error::{Error, ErrorKind, SpecError};
use crate::value::{Context, NixValue, Node, Null, SpecNode, TryFromValue, node_wf};

verus! {

/// Where the sources of a crate are.
pub enum CrateSource {
    /// The crate is a dependency, vendored under the directory.
    Vendored { vendor_dir: String },
    /// The crate is in the workspace of the package being built: the root
    /// of the workspace in the store, and the crate's path in it.
    Workspace { workspace_root: String, path_in_workspace: String },
}

/// The path of a package's root in the workspace whose root is `root`: the
/// empty path for the workspace's root itself.
pub open spec fn path_in(package_root: Seq<char>, root: Seq<char>) -> Seq<char> {
    if package_root == root {
        Seq::empty()
    } else {
        relative_to(package_root, root)
    }
}

/// The package's root is the workspace's root or under it.
pub open spec fn in_workspace(package_root: Seq<char>, root: Seq<char>) -> bool {
    package_root == root || under_root(package_root, root)
}

impl CrateSource {
    /// Where the sources of `package` are: in the workspace whose root is
    /// `src` for a package from a path, and vendored under `vendor_dir`
    /// otherwise.
    pub fn new(package: &PackageInfo, src: &str, vendor_dir: &str) -> (r: CrateSource)
        requires
            package.is_path_source ==> in_workspace(package.root@, src@),
        ensures
            package.is_path_source ==> (r matches CrateSource::Workspace { workspace_root, path_in_workspace }
                && workspace_root@ == src@ && path_in_workspace@ == path_in(package.root@, src@)),
            !package.is_path_source ==> (r matches CrateSource::Vendored { vendor_dir: d } && d@ == vendor_dir@),
    {
        if package.is_path_source {
            let path_in_workspace = if str_eq(package.root.as_str(), src) {
                String::new()
            } else {
                strip_root(package.root.as_str(), src)
            };
            CrateSource::Workspace { workspace_root: string_of(src), path_in_workspace }
        } else {
            CrateSource::Vendored { vendor_dir: string_of(vendor_dir) }
        }
    }
}

/// The path `rel` joined onto `base` (as std's `Path::join` does on Unix):
/// an absolute `rel` replaces `base`; otherwise a slash separates them,
/// unless `base` is empty or already ends with one.
pub open spec fn joined_path(base: Seq<char>, rel: Seq<char>) -> Seq<char> {
    if rel.len() > 0 && rel[0] == '/' {
        rel
    } else if base.len() == 0 || base.last() == '/' {
        base + rel
    } else {
        base + "/"@ + rel
    }
}

/// Joins the path `rel` onto `base`.
pub fn join_path(base: &str, rel: &str) -> (r: String)
    ensures
        r@ == joined_path(base@, rel@),
{
    let rel_chars = chars_of(rel);
    let base_chars = chars_of(base);
    if rel_chars.len() > 0 && rel_chars[0] == '/' {
        return string_of(rel);
    }
    let mut out = string_of(base);
    if base_chars.len() > 0 && base_chars[base_chars.len() - 1] != '/' {
        push_str(&mut out, "/");
    }
    push_str(&mut out, rel);
    out
}

/// The directory a crate of the workspace is copied from is its package's
/// root: joining the workspace's root and the package's path in it gives
/// the package's root back, for a root that does not end with a slash and a
/// path in it that does not start with one.
pub proof fn lemma_workspace_path_round_trip(package_root: Seq<char>, root: Seq<char>)
    requires
        under_root(package_root, root),
        root.len() > 0,
        root.last() != '/',
        !(relative_to(package_root, root).len() > 0 && relative_to(package_root, root)[0] == '/'),
    ensures
        joined_path(root, path_in(package_root, root)) == package_root,
{
    let rel = relative_to(package_root, root);
    reveal_strlit("/");
    assert(package_root != root);
    assert(root + "/"@ + rel =~= package_root);
}

/// The value the `src` argument of a crate is made from: the directory of
/// a vendored crate; or, for a crate of the workspace, the arguments of
/// `builtins.path`, which copies its directory into the store under the
/// directory's name (a crate at the root of the workspace has none).
pub enum CrateSrcValue {
    Path(String),
    CopiedPath { path: String, name: Option<String> },
}

/// The arguments of `buildRustCrate` that every crate has.
pub struct RequiredBuildCrateArgs {
    pub crate_name: String,
    pub src: CrateSource,
    pub version: String,
}

impl RequiredBuildCrateArgs {
    /// The name, sources and version of `package`; see `CrateSource::new`.
    pub fn new(package: &PackageInfo, src: &str, vendor_dir: &str) -> (r: RequiredBuildCrateArgs)
        requires
            package.is_path_source ==> in_workspace(package.root@, src@),
        ensures
            r.crate_name@ == package.name@,
            r.version@ == package.version@,
            package.is_path_source ==> (r.src matches CrateSource::Workspace { workspace_root, path_in_workspace }
                && workspace_root@ == src@ && path_in_workspace@ == path_in(package.root@, src@)),
            !package.is_path_source ==> (r.src matches CrateSource::Vendored { vendor_dir: d } && d@ == vendor_dir@),
    {
        RequiredBuildCrateArgs {
            crate_name: package.name.clone(),
            src: CrateSource::new(package, src, vendor_dir),
            version: package.version.clone(),
        }
    }

    /// The value of the `src` argument: for a vendored crate, its directory
    /// in the vendor directory, named after its name and version; for a
    /// crate of the workspace, its directory, copied under its name.
    pub fn src_value(&self) -> (r: CrateSrcValue)
        ensures
            match self.src {
                CrateSource::Vendored { vendor_dir } => r matches CrateSrcValue::Path(p) && p@ == joined_path(
                    vendor_dir@,
                    self.crate_name@ + "-"@ + self.version@,
                ),
                CrateSource::Workspace { workspace_root, path_in_workspace } => r matches CrateSrcValue::CopiedPath {
                    path,
                    name,
                } && path@ == joined_path(workspace_root@, path_in_workspace@) && opt_chars(name) == path_file_name(
                    path_in_workspace@,
                ),
            },
    {
        match &self.src {
            CrateSource::Vendored { vendor_dir } => {
                let mut dir = string_of(self.crate_name.as_str());
                push_str(&mut dir, "-");
                push_str(&mut dir, self.version.as_str());
                CrateSrcValue::Path(join_path(vendor_dir.as_str(), dir.as_str()))
            },
            CrateSource::Workspace { workspace_root, path_in_workspace } => CrateSrcValue::CopiedPath {
                path: join_path(workspace_root.as_str(), path_in_workspace.as_str()),
                name: crate::package::file_name(path_in_workspace.as_str()),
            },
        }
    }
}

/// The optional arguments of `buildRustCrate` that come from a package's
/// manifest; the others are left out.
pub struct OptionalBuildCrateArgsInner {
    pub authors: Vec<String>,
    pub build: Option<String>,
    pub codegen_units: Option<u32>,
    pub crate_bin: Option<Null>,
    pub crate_renames: Vec<Null>,
    pub description: Option<String>,
    pub edition: Option<String>,
    pub extra_rustc_opts: Vec<String>,
    pub extra_rustc_opts_for_build_rs: Vec<String>,
    pub features: Vec<String>,
    pub homepage: Option<String>,
    pub lib_name: Option<String>,
    pub lib_path: Option<String>,
    pub license_file: Option<String>,
    pub links: Option<String>,
    pub readme: Option<String>,
    pub repository: Option<String>,
    pub rust_version: Option<String>,
    /// The crate types; when empty, `buildRustCrate` builds a `lib`.
    pub crate_types: Vec<String>,
}

impl OptionalBuildCrateArgsInner {
    /// The optional arguments of the package whose manifest is `attrs`, with
    /// the features the resolution of the workspace enables for it.
    pub fn new(attrs: &PackageAttrs, features: &Vec<String>) -> (r: OptionalBuildCrateArgsInner)
        ensures
            strings_view(r.authors@) == strings_view(attrs.authors@),
            r.build is None,
            r.codegen_units is None,
            r.crate_bin is None,
            r.crate_renames@.len() == 0,
            opt_view(r.description) == opt_view(attrs.description),
            opt_view(r.edition) == Some(spec_edition(attrs.edition)),
            r.extra_rustc_opts@.len() == 0,
            r.extra_rustc_opts_for_build_rs@.len() == 0,
            strings_view(r.features@) == strings_view(features@),
            opt_view(r.homepage) == opt_view(attrs.homepage),
            r.lib_name is None,
            r.lib_path is None,
            opt_view(r.license_file) == opt_view(attrs.license_file),
            opt_view(r.links) == opt_view(attrs.links),
            opt_view(r.readme) == opt_view(attrs.readme),
            opt_view(r.repository) == opt_view(attrs.repository),
            opt_view(r.rust_version) == opt_view(attrs.rust_version),
            r.crate_types@.len() == 0,
    {
        let mut authors: Vec<String> = Vec::new();
        extend_strings(&mut authors, &attrs.authors);
        let mut feats: Vec<String> = Vec::new();
        extend_strings(&mut feats, features);
        OptionalBuildCrateArgsInner {
            authors,
            build: None,
            codegen_units: None,
            crate_bin: None,
            crate_renames: Vec::new(),
            description: copy_opt(&attrs.description),
            edition: Some(string_of(edition_as_str(attrs.edition))),
            extra_rustc_opts: Vec::new(),
            extra_rustc_opts_for_build_rs: Vec::new(),
            features: feats,
            homepage: copy_opt(&attrs.homepage),
            lib_name: None,
            lib_path: None,
            license_file: copy_opt(&attrs.license_file),
            links: copy_opt(&attrs.links),
            readme: copy_opt(&attrs.readme),
            repository: copy_opt(&attrs.repository),
            rust_version: copy_opt(&attrs.rust_version),
            crate_types: Vec::new(),
        }
    }
}

/// The optional arguments of `buildRustCrate` for a crate: those of its
/// manifest, and its dependencies.
pub struct OptionalBuildCrateArgs<D> {
    pub inner: OptionalBuildCrateArgsInner,
    pub dependencies: Dependencies<D>,
}

impl<D> OptionalBuildCrateArgs<D> {
    /// The arguments with `fun` applied to each dependency.
    pub fn map_deps<E, F: Fn(D) -> E>(self, fun: F) -> (r: OptionalBuildCrateArgs<E>)
        requires
            forall|d: D| fun.requires((d,)),
        ensures
            r.inner == self.inner,
            r.dependencies.normal@.len() == self.dependencies.normal@.len(),
            forall|i: int| 0 <= i < self.dependencies.normal@.len() ==> fun.ensures(
                (self.dependencies.normal@[i],),
                #[trigger] r.dependencies.normal@[i],
            ),
            r.dependencies.build@.len() == self.dependencies.build@.len(),
            forall|i: int| 0 <= i < self.dependencies.build@.len() ==> fun.ensures(
                (self.dependencies.build@[i],),
                #[trigger] r.dependencies.build@[i],
            ),
    {
        OptionalBuildCrateArgs { inner: self.inner, dependencies: self.dependencies.map(fun) }
    }
}

/// The message of the error for a vendor directory given as something else
/// than a derivation, a path or a string.
pub open spec fn vendor_dir_message() -> Seq<char> {
    "expected \"vendorDir\" to be a derivation, path, or string"@
}

/// `r` is the directory the value `v` names as the vendor directory: the
/// output path of a derivation, a path, or a string.
pub open spec fn is_vendor_dir(ctx: &Context, v: NixValue, r: Result<String, Error>) -> bool {
    let forced = ctx.forced(v);
    match ctx.node(forced) {
        SpecNode::Attrset(_) => exists|c: Result<NixDerivation, Error>| #[trigger] NixDerivation::converts(ctx, v, c) && match c {
            Ok(d) => gets(ctx, d.spec_attrs(ctx), ascii_bytes("outPath"@), r),
            Err(e) => r == Err::<String, Error>(e),
        },
        SpecNode::Path(p) => r matches Ok(s) && s@ == p,
        SpecNode::String(t) => r matches Ok(s) && s@ == t,
        _ => r matches Err(e) && e@ == (SpecError { kind: ErrorKind::Nix, message: vendor_dir_message() }),
    }
}

/// The vendor directory named by `value`: the output path of a derivation,
/// a path, or a string.
pub fn get_vendor_dir(value: NixValue, ctx: &Context) -> (r: Result<String, Error>)
    requires
        ctx.wf(),
        ctx.holds(value),
    ensures
        is_vendor_dir(ctx, value, r),
{
    let v = ctx.force(value);
    match ctx.node_ref(v) {
        Node::Attrset(_) => {
            let c = NixDerivation::try_from_value(value, ctx);
            match c {
                Ok(d) => {
                    proof {
                        assert(node_wf(ctx.heap()[v.index()], v.index()));
                    }
                    d.out_path_as_string(ctx)
                },
                Err(e) => Err(e),
            }
        },
        Node::Path(p) => Ok(p.clone()),
        Node::String(t) => Ok(t.clone()),
        _ => {
            proof {
                reveal_strlit("expected \"vendorDir\" to be a derivation, path, or string");
            }
            Err(Error::from_str(ErrorKind::Nix, "expected \"vendorDir\" to be a derivation, path, or string"))
        },
    }
}

} // verus!
