//! Building a package from its build graph: what to make for each node, in
//! the order of the graph, and which derivation stands for the package.
//! The derivations themselves are made by the Nix evaluator.

use vstd::prelude::*;

use crate::attrset::{Attrset, LiteralAttrset, NixAttrset, ascii_bytes, gets_opt, literal_bytes, names_of};
use crate::callable::NixLambda;
use crate::error::Error;
use crate::graph::{BuildGraph, Workspace, lemma_node};
use crate::merge::{Merge, lemma_merge_len, merged};
use crate::rustc::string_of;
use crate::value::{Context, NixValue, Node, SpecNode, lemma_nix_value_at, nix_value_at};
use crate::targets::first_lib;

verus! {

/// What std's `Path::file_name` gives for the path `path`.
pub uninterp spec fn path_file_name(path: Seq<char>) -> Option<Seq<char>>;

/// `name` is a normal path component: not empty, without a slash, and
/// neither `.` nor `..`.
pub open spec fn is_normal_component(name: Seq<char>) -> bool {
    &&& name.len() > 0
    &&& forall|k: int| 0 <= k < name.len() ==> name[k] != '/'
    &&& name != "."@
    &&& name != ".."@
}

/// The part of the path `path` after its last slash (all of it if it has
/// none).
pub open spec fn final_component(path: Seq<char>) -> Seq<char>
    decreases path.len(),
{
    if path.len() == 0 || path.last() == '/' {
        Seq::empty()
    } else {
        final_component(path.drop_last()).push(path.last())
    }
}

/// The view of an optional string.
pub open spec fn opt_chars(s: Option<String>) -> Option<Seq<char>> {
    match s {
        Some(s) => Some(s@),
        None => None,
    }
}

/// The final component of the path `path` (std's `Path::file_name`). As
/// documented, a path that ends with a normal component has that component
/// as its file name; what paths that end otherwise (with a slash, `.` or
/// `..`) give is not stated here.
#[verifier::external_body]
pub(crate) fn file_name(path: &str) -> (r: Option<String>)
    ensures
        opt_chars(r) == path_file_name(path@),
        is_normal_component(final_component(path@)) ==> opt_chars(r) == Some(final_component(path@)),
{
    match std::path::Path::new(path).file_name() {
        Some(n) => Some(n.to_string_lossy().into_owned()),
        None => None,
    }
}

/// What to make for a node of the build graph: its sources, copied into
/// the store under the file name of their directory (if it has one); a
/// derivation for its build script, its library and its binaries, each if
/// the package has them; and the nodes whose libraries the build script,
/// and the library and binaries, are built with.
pub struct NodePlan {
    pub src_path: String,
    pub src_name: Option<String>,
    pub build_script: bool,
    pub library: bool,
    pub binaries: bool,
    pub build_deps: Vec<usize>,
    pub normal_deps: Vec<usize>,
}

/// A copy of the positions `v`.
fn copy_positions(v: &Vec<usize>) -> (r: Vec<usize>)
    ensures
        r@ == v@,
{
    let mut r: Vec<usize> = Vec::new();
    let mut i: usize = 0;
    while i < v.len()
        invariant
            i <= v@.len(),
            r@ == v@.take(i as int),
        decreases v@.len() - i,
    {
        r.push(v[i]);
        assert(v@.take(i + 1) =~= v@.take(i as int).push(v@[i as int]));
        i = i + 1;
    }
    assert(v@.take(v@.len() as int) =~= v@);
    r
}

/// What to make for the node at `i` of `graph`, whose package comes from a
/// path: packages of registries and git repositories are not supported.
pub fn plan_node(graph: &BuildGraph, i: usize) -> (r: NodePlan)
    requires
        i < graph.spec_nodes().len(),
        i < graph.spec_edges().len(),
        graph.spec_nodes()[i as int].package_src is Some,
    ensures
        r.src_path@ == graph.spec_nodes()[i as int].package_src->0@,
        opt_chars(r.src_name) == path_file_name(r.src_path@),
        r.build_script == graph.spec_nodes()[i as int].build_script is Some,
        r.library == graph.spec_nodes()[i as int].library is Some,
        r.binaries == (graph.spec_nodes()[i as int].binaries@.len() > 0),
        r.build_deps@ == graph.spec_edges()[i as int].build_dependencies@,
        r.normal_deps@ == graph.spec_edges()[i as int].dependencies@,
{
    let node = graph.node(i);
    let edges = graph.node_edges(i);
    let src_path = match &node.package_src {
        Some(p) => p.clone(),
        None => String::new(),
    };
    let src_name = file_name(src_path.as_str());
    NodePlan {
        src_path,
        src_name,
        build_script: node.build_script.is_some(),
        library: node.library.is_some(),
        binaries: node.binaries.len() > 0,
        build_deps: copy_positions(&edges.build_dependencies),
        normal_deps: copy_positions(&edges.dependencies),
    }
}

/// The last node of `nodes` whose package has a library, if any.
pub open spec fn last_library(g: &BuildGraph, n: int) -> Option<int>
    decreases n,
{
    if n <= 0 {
        None
    } else if g.spec_nodes()[n - 1].library is Some {
        Some(n - 1)
    } else {
        last_library(g, n - 1)
    }
}

/// The node whose library derivation stands for the package: the last one
/// that has a library, as the library derivations are made in the order of
/// the graph.
pub fn package_library(graph: &BuildGraph) -> (r: Option<usize>)
    ensures
        opt_int(r) == last_library(graph, graph.spec_nodes().len() as int),
{
    let mut n = graph.num_nodes();
    while n > 0
        invariant
            n <= graph.spec_nodes().len(),
            last_library(graph, graph.spec_nodes().len() as int) == last_library(graph, n as int),
        decreases n,
    {
        if graph.node(n - 1).library.is_some() {
            return Some(n - 1);
        }
        n = n - 1;
    }
    None
}

/// The view of an optional position.
pub open spec fn opt_int(p: Option<usize>) -> Option<int> {
    match p {
        Some(p) => Some(p as int),
        None => None,
    }
}

/// The library derivation that stands for the package is that of the root
/// of its build graph, the last node, when the package has a library target.
pub proof fn lemma_root_library(g: &BuildGraph, ws: &Workspace)
    requires
        g.wf(ws),
        g.spec_nodes().len() > 0,
        g.spec_nodes().last().package == ws.root,
        first_lib(ws.packages@[ws.root as int].targets@) is Some,
    ensures
        last_library(g, g.spec_nodes().len() as int) == Some((g.spec_nodes().len() - 1) as int),
{
    lemma_node(g, ws, (g.spec_nodes().len() - 1) as int);
}

/// What the overrides of a crate's derivation are made from.
pub enum OverridesPlan {
    /// The global overrides, if any.
    Global,
    /// The crate's override function, called with the global overrides and
    /// the crate's version.
    Call { fun: NixLambda, args: Merge<Option<NixAttrset>, LiteralAttrset> },
}

/// The heap of `after` holds that of `before`, and one more node.
pub open spec fn grew_by_one(before: &Context, after: &Context) -> bool {
    &&& after.wf()
    &&& after.heap().len() == before.heap().len() + 1
    &&& after.heap().take(before.heap().len() as int) == before.heap()
    &&& after.spec_builtins() == before.spec_builtins()
}

/// The attributes of an attribute set of the heap stay the same as the
/// heap grows.
proof fn lemma_attrs_stay(set: Option<NixAttrset>, before: &Context, after: &Context)
    requires
        set.attrset_wf(before),
        grew_by_one(before, after),
    ensures
        set.attrset_wf(after),
        set.spec_attrs(after) == set.spec_attrs(before),
{
    if let Some(a) = set {
        let v = a.spec_value();
        assert(after.heap()[v.index()] == after.heap().take(before.heap().len() as int)[v.index()]);
    }
}

/// What the overrides of the crate named `name`, at `version`, are made
/// from: the global overrides `global`, unless the crate overrides
/// `crate_overrides` give a function for the crate, which is then called
/// with the global overrides and the crate's version, as a string of the
/// heap.
pub fn overrides_plan(
    global: Option<NixAttrset>,
    crate_overrides: Option<NixAttrset>,
    name: &[u8],
    version: &str,
    ctx: &mut Context,
) -> (r: Result<OverridesPlan, Error>)
    requires
        old(ctx).wf(),
        global.attrset_wf(old(ctx)),
        crate_overrides.attrset_wf(old(ctx)),
        global.spec_attrs(old(ctx)).len() < u32::MAX,
        old(ctx).heap().len() < usize::MAX,
    ensures
        match r {
            Ok(OverridesPlan::Call { fun, args }) => {
                &&& grew_by_one(old(ctx), final(ctx))
                &&& final(ctx).heap().last() == SpecNode::String(version@)
                &&& crate_overrides matches Some(c) && gets_opt(
                    old(ctx),
                    c.spec_attrs(old(ctx)),
                    name@,
                    Ok::<Option<NixLambda>, Error>(Some(fun)),
                )
                &&& args.attrset_wf(final(ctx))
                &&& args.spec_attrs(final(ctx)) == merged(
                    global.spec_attrs(old(ctx)),
                    seq![(ascii_bytes("version"@), nix_value_at(old(ctx).heap().len() as int))],
                )
            },
            Ok(OverridesPlan::Global) => {
                &&& *final(ctx) == *old(ctx)
                &&& match crate_overrides {
                    None => true,
                    Some(c) => gets_opt(old(ctx), c.spec_attrs(old(ctx)), name@, Ok::<Option<NixLambda>, Error>(None)),
                }
            },
            Err(e) => {
                &&& *final(ctx) == *old(ctx)
                &&& crate_overrides matches Some(c) && gets_opt(
                    old(ctx),
                    c.spec_attrs(old(ctx)),
                    name@,
                    Err::<Option<NixLambda>, Error>(e),
                )
            },
        },
{
    let c = match crate_overrides {
        None => {
            return Ok(OverridesPlan::Global);
        },
        Some(c) => c,
    };
    let fun = match c.get_opt::<NixLambda>(name, ctx) {
        Err(e) => {
            return Err(e);
        },
        Ok(None) => {
            return Ok(OverridesPlan::Global);
        },
        Ok(Some(fun)) => fun,
    };
    let ghost before = *ctx;
    let version_value = ctx.alloc_value(Node::String(string_of(version)));
    proof {
        assert(ctx.heap().take(before.heap().len() as int) =~= before.heap());
        lemma_attrs_stay(global, &before, ctx);
        lemma_nix_value_at(version_value);
        reveal_strlit("version");
    }
    let key = literal_bytes_vec("version");
    let mut keys: Vec<Vec<u8>> = Vec::new();
    keys.push(key);
    let mut values: Vec<NixValue> = Vec::new();
    values.push(version_value);
    let lit = LiteralAttrset::new(keys, values);
    proof {
        let a = lit.spec_attrs(ctx);
        assert(a =~= seq![(ascii_bytes("version"@), version_value)]);
        assert(names_of(a) =~= seq![ascii_bytes("version"@)]);
        global.lemma_attrs_wf(ctx);
        lemma_merge_len(global.spec_attrs(ctx), a);
    }
    let args = Merge::new(global, lit, ctx);
    Ok(OverridesPlan::Call { fun, args })
}

/// The bytes of the ASCII literal `s`, owned.
pub(crate) fn literal_bytes_vec(s: &'static str) -> (r: Vec<u8>)
    requires
        vstd::string::is_ascii(s),
    ensures
        r@ == ascii_bytes(s@),
{
    vstd::slice::slice_to_vec(literal_bytes(s))
}

/// The value, if there is one.
pub open spec fn opt_seq(v: Option<NixValue>) -> Seq<NixValue> {
    match v {
        Some(v) => seq![v],
        None => Seq::empty(),
    }
}

/// Appends the values `vs` to `out`.
fn extend_values(out: &mut Vec<NixValue>, vs: &Vec<NixValue>)
    ensures
        final(out)@ == old(out)@ + vs@,
{
    let mut i: usize = 0;
    while i < vs.len()
        invariant
            i <= vs@.len(),
            out@ == old(out)@ + vs@.take(i as int),
        decreases vs@.len() - i,
    {
        out.push(vs[i]);
        assert(vs@.take(i + 1) =~= vs@.take(i as int).push(vs@[i as int]));
        i = i + 1;
    }
    assert(vs@.take(i as int) =~= vs@);
}

/// The build inputs of a crate's derivation, in order: the derivations of
/// its build script and of its library, for those it is built with; the
/// derivation that gathers its dependencies; those of its direct
/// dependencies; and the extra ones its overrides give.
pub fn build_inputs(
    build_script: Option<NixValue>,
    library: Option<NixValue>,
    deps: NixValue,
    direct_deps: &Vec<NixValue>,
    extra: &Vec<NixValue>,
) -> (r: Vec<NixValue>)
    ensures
        r@ == opt_seq(build_script) + opt_seq(library) + seq![deps] + direct_deps@ + extra@,
{
    let mut out: Vec<NixValue> = Vec::new();
    if let Some(b) = build_script {
        out.push(b);
    }
    if let Some(l) = library {
        out.push(l);
    }
    out.push(deps);
    extend_values(&mut out, direct_deps);
    extend_values(&mut out, extra);
    assert(out@ =~= opt_seq(build_script) + opt_seq(library) + seq![deps] + direct_deps@ + extra@);
    out
}

/// The native build inputs of a crate's derivation: the script that reads
/// the output of build scripts, the compiler, and the extra ones its
/// overrides give.
pub fn native_build_inputs(parse_output: NixValue, rustc: NixValue, extra: &Vec<NixValue>) -> (r: Vec<NixValue>)
    ensures
        r@ == seq![parse_output, rustc] + extra@,
{
    let mut out: Vec<NixValue> = Vec::new();
    out.push(parse_output);
    out.push(rustc);
    extend_values(&mut out, extra);
    assert(out@ =~= seq![parse_output, rustc] + extra@);
    out
}

} // verus!
