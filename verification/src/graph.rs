//! The build graph of a package: one node per package it needs, each after
//! the packages it depends on, the root last.

use vstd::prelude::*;

use crate::renames::{DepFilter, DepKind, DependencyRenames, dependency_renames, deps_view, grouped_rename, rename_of, renames_for};
use crate::rustc::{BinaryCrate, BuildScript, LibraryCrate};
use crate::targets::{
    BuildSetting, PackageInfo, are_binaries_of, binary_crates, bins_readable, build_script, deps_of, dep_list,
    is_build_script_of, is_library_of, lib_readable, library_crate,
};

verus! {

/// A resolved workspace: its packages, and the package to build.
pub struct Workspace {
    pub packages: Vec<PackageInfo>,
    pub root: usize,
}

/// The positions of the packages that the dependencies of kind `kind` point
/// to, in order.
pub open spec fn deps_of_kind(deps: Seq<(usize, crate::renames::Dep)>, kind: DepKind) -> Seq<int>
    decreases deps.len(),
{
    if deps.len() == 0 {
        Seq::empty()
    } else {
        let rest = deps_of_kind(deps.drop_last(), kind);
        if deps.last().1.kind == kind {
            rest.push(deps.last().0 as int)
        } else {
            rest
        }
    }
}

impl Workspace {
    /// The root and every dependency point to packages of the workspace.
    pub open spec fn wf(&self) -> bool {
        &&& self.root < self.packages@.len()
        &&& forall|p: int, k: int| 0 <= p < self.packages@.len() && 0 <= k < self.packages@[p].deps@.len()
            ==> #[trigger] self.packages@[p].deps@[k].0 < self.packages@.len()
    }

    /// `rank` decreases along every dependency that is built (normal and
    /// build ones): those dependencies have no cycle.
    pub open spec fn ranked_by(&self, rank: spec_fn(int) -> nat) -> bool {
        forall|p: int, k: int| 0 <= p < self.packages@.len() && 0 <= k < self.packages@[p].deps@.len()
            && self.packages@[p].deps@[k].1.kind != DepKind::Development
            ==> rank(#[trigger] self.packages@[p].deps@[k].0 as int) < rank(p)
    }

    /// The normal and build dependencies have no cycle.
    pub open spec fn acyclic(&self) -> bool {
        exists|rank: spec_fn(int) -> nat| self.ranked_by(rank)
    }

    /// The targets of every package can be read.
    pub open spec fn readable(&self) -> bool {
        forall|p: int| 0 <= p < self.packages@.len() ==> {
            &&& lib_readable(#[trigger] self.packages@[p])
            &&& bins_readable(self.packages@[p])
            &&& !(self.packages@[p].build matches Some(BuildSetting::MultipleScript))
        }
    }
}

/// The edges from a node to the nodes it depends on.
#[derive(Clone, Debug)]
pub struct NodeEdges {
    /// The positions of the node's dependencies in the graph.
    pub dependencies: Vec<usize>,
    /// The positions of the dependencies of the node's build script.
    pub build_dependencies: Vec<usize>,
}

/// A node of the build graph: what to build of one package.
pub struct BuildGraphNode {
    /// The position of the package in the workspace.
    pub package: usize,
    pub binaries: Vec<BinaryCrate>,
    pub build_script: Option<BuildScript>,
    pub dependency_renames: DependencyRenames,
    pub library: Option<LibraryCrate>,
    /// The directory of the package, if it comes from a path.
    pub package_src: Option<String>,
}

/// `node` is what to build of the package at `p`, the root of the build
/// graph or not.
pub open spec fn is_node_of(ws: &Workspace, p: int, node: BuildGraphNode) -> bool {
    let pkg = ws.packages@[p];
    &&& node.package == p
    &&& are_binaries_of(pkg, p == ws.root, node.binaries@)
    &&& is_build_script_of(pkg, node.build_script)
    &&& node.dependency_renames.wf()
    &&& forall|name: Seq<char>| #[trigger] rename_of(node.dependency_renames.spec_entries(), name)
        == grouped_rename(renames_for(deps_view(deps_of(pkg.deps@)), DepFilter::Normal, name))
    &&& is_library_of(pkg, node.library)
    &&& match node.package_src {
        Some(s) => pkg.is_path_source && s@ == pkg.root@,
        None => !pkg.is_path_source,
    }
}

/// The edges `e` of a node lead to the nodes of the packages its normal and
/// build dependencies point to, in order, all before the node at `i`.
pub open spec fn edges_ok(idx: Seq<Option<usize>>, deps: Seq<(usize, crate::renames::Dep)>, e: NodeEdges, i: int) -> bool {
    let normal = deps_of_kind(deps, DepKind::Normal);
    let build = deps_of_kind(deps, DepKind::Build);
    &&& e.dependencies@.len() == normal.len()
    &&& forall|k: int| 0 <= k < normal.len() ==> idx[#[trigger] normal[k]] == Some(e.dependencies@[k])
    &&& forall|k: int| 0 <= k < normal.len() ==> (#[trigger] e.dependencies@[k]) < i
    &&& e.build_dependencies@.len() == build.len()
    &&& forall|k: int| 0 <= k < build.len() ==> idx[#[trigger] build[k]] == Some(e.build_dependencies@[k])
    &&& forall|k: int| 0 <= k < build.len() ==> (#[trigger] e.build_dependencies@[k]) < i
}

/// The edges `e` lead to the node at `i`, through a normal or a build
/// dependency.
pub open spec fn points_to(e: NodeEdges, i: int) -> bool {
    exists|k: int|
        #![trigger e.dependencies@[k]]
        #![trigger e.build_dependencies@[k]]
        (0 <= k < e.dependencies@.len() && e.dependencies@[k] == i) || (0 <= k < e.build_dependencies@.len()
            && e.build_dependencies@[k] == i)
}

/// A later node depends on the node at `i`.
pub open spec fn depended_on(edges: Seq<NodeEdges>, i: int) -> bool {
    exists|j: int| i < j < edges.len() && #[trigger] points_to(edges[j], i)
}

/// A node that a later one depends on still is once edges are added after
/// the others.
proof fn lemma_depended_on_grows(a: Seq<NodeEdges>, b: Seq<NodeEdges>, i: int)
    requires
        depended_on(a, i),
        a.len() <= b.len(),
        forall|j: int| 0 <= j < a.len() ==> b[j] == a[j],
    ensures
        depended_on(b, i),
{
    let j = choose|j: int| i < j < a.len() && #[trigger] points_to(a[j], i);
    assert(b[j] == a[j]);
    assert(points_to(b[j], i));
}

/// The nodes a loop of `insert_package` added so far are depended on by a
/// later node, or are among the positions `a` and `other` the node being
/// inserted will depend on; this stays so once a dependency is inserted and
/// its position added to `a`.
proof fn lemma_new_nodes_depended_on(
    before: BuildGraph,
    after: BuildGraph,
    start_len: int,
    dep: int,
    r: usize,
    old_a: Seq<usize>,
    new_a: Seq<usize>,
    other: Seq<usize>,
)
    requires
        0 <= start_len <= before.nodes@.len(),
        before.nodes@.len() == before.edges@.len(),
        forall|i: int| start_len <= i < before.nodes@.len() ==> depended_on(before.edges@, i)
            || old_a.contains(i as usize) || other.contains(i as usize),
        after.nodes@.len() >= before.nodes@.len(),
        after.nodes@.len() == after.edges@.len(),
        forall|i: int| 0 <= i < before.nodes@.len() ==> after.edges@[i] == #[trigger] before.edges@[i],
        forall|i: int| before.nodes@.len() <= i < after.nodes@.len() - 1 ==> #[trigger] depended_on(after.edges@, i),
        0 <= dep < before.pkg_id_to_idx@.len(),
        before.pkg_id_to_idx@[dep] matches Some(at) ==> r == at && after == before,
        before.pkg_id_to_idx@[dep] is None ==> r == after.nodes@.len() - 1,
        new_a == old_a.push(r),
    ensures
        forall|i: int| start_len <= i < after.nodes@.len() ==> depended_on(after.edges@, i)
            || new_a.contains(i as usize) || other.contains(i as usize),
{
    assert forall|i: int| start_len <= i < after.nodes@.len() implies depended_on(after.edges@, i)
        || new_a.contains(i as usize) || other.contains(i as usize) by {
        if i < before.nodes@.len() {
            if depended_on(before.edges@, i) {
                lemma_depended_on_grows(before.edges@, after.edges@, i);
            } else if old_a.contains(i as usize) {
                let j = choose|j: int| 0 <= j < old_a.len() && old_a[j] == i as usize;
                assert(new_a[j] == old_a[j]);
            }
        } else if i == after.nodes@.len() - 1 {
            assert(new_a[new_a.len() - 1] == r);
        }
    }
}

/// The build graph of a package.
pub struct BuildGraph {
    /// The nodes. If a package depends on another, the node of the other
    /// comes first, so the root comes last.
    pub nodes: Vec<BuildGraphNode>,
    /// The edges of each node.
    pub edges: Vec<NodeEdges>,
    /// The position of the node of each package of the workspace, if it was
    /// inserted.
    pkg_id_to_idx: Vec<Option<usize>>,
}

impl BuildGraph {
    /// The position of the node of each package, if it was inserted.
    pub closed spec fn spec_index(&self) -> Seq<Option<usize>> {
        self.pkg_id_to_idx@
    }

    /// The nodes.
    pub closed spec fn spec_nodes(&self) -> Seq<BuildGraphNode> {
        self.nodes@
    }

    /// The edges of each node.
    pub closed spec fn spec_edges(&self) -> Seq<NodeEdges> {
        self.edges@
    }

    /// The graph is consistent with the workspace: each inserted package
    /// has one node and each node one package, each node is what to build
    /// of its package, and the edges lead to earlier nodes.
    pub open spec fn wf(&self, ws: &Workspace) -> bool {
        let idx = self.spec_index();
        &&& self.spec_nodes().len() == self.spec_edges().len()
        &&& idx.len() == ws.packages@.len()
        &&& forall|p: int| 0 <= p < idx.len() && (#[trigger] idx[p]) is Some ==> {
            &&& idx[p]->0 < self.spec_nodes().len()
            &&& self.spec_nodes()[idx[p]->0 as int].package == p
        }
        &&& forall|i: int| 0 <= i < self.spec_nodes().len() ==> {
            &&& (#[trigger] self.spec_nodes()[i]).package < ws.packages@.len()
            &&& idx[self.spec_nodes()[i].package as int] == Some(i as usize)
            &&& is_node_of(ws, self.spec_nodes()[i].package as int, self.spec_nodes()[i])
            &&& edges_ok(idx, ws.packages@[self.spec_nodes()[i].package as int].deps@, self.spec_edges()[i], i)
        }
    }

    /// The number of nodes.
    pub fn num_nodes(&self) -> (r: usize)
        ensures
            r == self.spec_nodes().len(),
    {
        self.nodes.len()
    }

    /// The node at `i`.
    pub fn node(&self, i: usize) -> (r: &BuildGraphNode)
        requires
            i < self.spec_nodes().len(),
        ensures
            *r == self.spec_nodes()[i as int],
    {
        &self.nodes[i]
    }

    /// The edges of the node at `i`.
    pub fn node_edges(&self, i: usize) -> (r: &NodeEdges)
        requires
            i < self.spec_edges().len(),
        ensures
            *r == self.spec_edges()[i as int],
    {
        &self.edges[i]
    }

    /// The build graph of the root package of `ws`: the root and,
    /// recursively, its normal and build dependencies.
    pub fn new(ws: &Workspace) -> (r: BuildGraph)
        requires
            ws.wf(),
            ws.acyclic(),
            ws.readable(),
            ws.packages@.len() < usize::MAX,
        ensures
            r.wf(ws),
            r.spec_nodes().len() > 0,
            r.spec_index()[ws.root as int] == Some((r.spec_nodes().len() - 1) as usize),
            r.spec_nodes()[r.spec_nodes().len() - 1].package == ws.root,
            forall|i: int| 0 <= i < r.spec_nodes().len() - 1 ==> #[trigger] depended_on(r.spec_edges(), i),
    {
        let ghost rank = choose|rank: spec_fn(int) -> nat| ws.ranked_by(rank);
        let mut this = Self::empty(ws);
        this.insert_package(ws.root, ws, Ghost(rank));
        this
    }

    /// The graph with no node.
    fn empty(ws: &Workspace) -> (r: BuildGraph)
        ensures
            r.wf(ws),
            r.nodes@.len() == 0,
            forall|p: int| 0 <= p < ws.packages@.len() ==> r.spec_index()[p] is None,
    {
        let mut idx: Vec<Option<usize>> = Vec::new();
        let mut i: usize = 0;
        while i < ws.packages.len()
            invariant
                0 <= i <= ws.packages@.len(),
                idx@.len() == i,
                forall|p: int| 0 <= p < i ==> idx@[p] is None,
            decreases ws.packages@.len() - i,
        {
            idx.push(None);
            i = i + 1;
        }
        BuildGraph { nodes: Vec::new(), edges: Vec::new(), pkg_id_to_idx: idx }
    }

    /// Inserts the package at `pkg`, and first its normal and build
    /// dependencies, recursively, unless it is already in the graph; returns
    /// the position of its node.
    fn insert_package(&mut self, pkg: usize, ws: &Workspace, Ghost(rank): Ghost<spec_fn(int) -> nat>) -> (r: usize)
        requires
            old(self).wf(ws),
            ws.wf(),
            ws.ranked_by(rank),
            ws.readable(),
            pkg < ws.packages@.len(),
            ws.packages@.len() < usize::MAX,
        ensures
            final(self).wf(ws),
            final(self).spec_index()[pkg as int] == Some(r),
            final(self).nodes@.len() >= old(self).nodes@.len(),
            forall|p: int| 0 <= p < ws.packages@.len() && (#[trigger] old(self).spec_index()[p]) is Some
                ==> final(self).spec_index()[p] == old(self).spec_index()[p],
            old(self).spec_index()[pkg as int] is None ==> r == final(self).nodes@.len() - 1,
            forall|p: int| 0 <= p < ws.packages@.len() && (#[trigger] final(self).spec_index()[p]) is Some
                && old(self).spec_index()[p] is None ==> rank(p) <= rank(pkg as int),
            forall|i: int| 0 <= i < old(self).nodes@.len() ==> final(self).nodes@[i] == #[trigger] old(self).nodes@[i],
            forall|i: int| 0 <= i < old(self).nodes@.len() ==> final(self).edges@[i] == #[trigger] old(self).edges@[i],
            old(self).spec_index()[pkg as int] matches Some(at) ==> r == at && *final(self) == *old(self),
            forall|i: int| old(self).nodes@.len() <= i < final(self).nodes@.len() - 1 ==> #[trigger] depended_on(
                final(self).edges@,
                i,
            ),
        decreases rank(pkg as int),
    {
        if let Some(node_idx) = self.pkg_id_to_idx[pkg] {
            return node_idx;
        }
        let package = &ws.packages[pkg];
        let mut dependencies: Vec<usize> = Vec::new();
        let mut build_dependencies: Vec<usize> = Vec::new();
        let ghost start = *self;
        let mut k: usize = 0;
        while k < package.deps.len()
            invariant
                ws.wf(),
                ws.ranked_by(rank),
                ws.readable(),
                ws.packages@.len() < usize::MAX,
                pkg < ws.packages@.len(),
                package == ws.packages@[pkg as int],
                0 <= k <= package.deps@.len(),
                self.wf(ws),
                self.spec_index()[pkg as int] is None,
                self.nodes@.len() >= start.nodes@.len(),
                forall|p: int| 0 <= p < ws.packages@.len() && (#[trigger] start.spec_index()[p]) is Some
                    ==> self.spec_index()[p] == start.spec_index()[p],
                forall|p: int| 0 <= p < ws.packages@.len() && (#[trigger] self.spec_index()[p]) is Some
                    && start.spec_index()[p] is None ==> rank(p) < rank(pkg as int),
                forall|i: int| 0 <= i < start.nodes@.len() ==> self.nodes@[i] == #[trigger] start.nodes@[i],
                forall|i: int| 0 <= i < start.nodes@.len() ==> self.edges@[i] == #[trigger] start.edges@[i],
                dependencies@.len() == deps_of_kind(package.deps@.take(k as int), DepKind::Normal).len(),
                forall|j: int| 0 <= j < dependencies@.len() ==> self.spec_index()[#[trigger] deps_of_kind(package.deps@.take(k as int), DepKind::Normal)[j]]
                    == Some(dependencies@[j]),
                forall|j: int| 0 <= j < dependencies@.len() ==> (#[trigger] dependencies@[j]) < self.nodes@.len(),
                build_dependencies@.len() == deps_of_kind(package.deps@.take(k as int), DepKind::Build).len(),
                forall|j: int| 0 <= j < build_dependencies@.len() ==> self.spec_index()[#[trigger] deps_of_kind(package.deps@.take(k as int), DepKind::Build)[j]]
                    == Some(build_dependencies@[j]),
                forall|j: int| 0 <= j < build_dependencies@.len() ==> (#[trigger] build_dependencies@[j]) < self.nodes@.len(),
                self.nodes@.len() == self.edges@.len(),
                forall|i: int| start.nodes@.len() <= i < self.nodes@.len() ==> depended_on(self.edges@, i)
                    || dependencies@.contains(i as usize) || build_dependencies@.contains(i as usize),
            decreases package.deps@.len() - k,
        {
            let dep_pkg = package.deps[k].0;
            let ghost before = *self;
            let ghost deps = package.deps@;
            let ghost n = ws.packages@.len() as int;
            let ghost old_normal = deps_of_kind(deps.take(k as int), DepKind::Normal);
            let ghost old_build = deps_of_kind(deps.take(k as int), DepKind::Build);
            proof {
                lemma_deps_of_kind_step(deps, k as int, DepKind::Normal);
                lemma_deps_of_kind_step(deps, k as int, DepKind::Build);
                assert(dep_pkg < ws.packages@.len());
                assert forall|j: int| 0 <= j < deps.take(k as int).len() implies (#[trigger] deps.take(k as int)[j]).0 < n by {
                    assert(deps.take(k as int)[j] == deps[j]);
                }
                lemma_deps_of_kind_in(deps.take(k as int), DepKind::Normal, n);
                lemma_deps_of_kind_in(deps.take(k as int), DepKind::Build, n);
            }
            match package.deps[k].1.kind {
                DepKind::Normal => {
                    proof {
                        assert(rank(dep_pkg as int) < rank(pkg as int));
                    }
                    let ghost old_deps = dependencies@;
                    let node_idx = self.insert_package(dep_pkg, ws, Ghost(rank));
                    dependencies.push(node_idx);
                    proof {
                        lemma_new_nodes_depended_on(before, *self, start.nodes@.len() as int, dep_pkg as int, node_idx, old_deps, dependencies@, build_dependencies@);
                        assert forall|p: int| 0 <= p < ws.packages@.len() && (#[trigger] self.spec_index()[p]) is Some
                            && start.spec_index()[p] is None implies rank(p) < rank(pkg as int) by {
                            if before.spec_index()[p] is None {
                                assert(rank(p) <= rank(dep_pkg as int));
                            } else {
                                assert(self.spec_index()[p] == before.spec_index()[p]);
                            }
                        }
                        let new_normal = deps_of_kind(deps.take(k + 1), DepKind::Normal);
                        assert(new_normal == old_normal.push(dep_pkg as int));
                        assert forall|j: int| 0 <= j < dependencies@.len() implies self.spec_index()[#[trigger] new_normal[j]]
                            == Some(dependencies@[j]) by {
                            if j < dependencies@.len() - 1 {
                                let q = old_normal[j];
                                assert(new_normal[j] == q);
                                assert(before.spec_index()[q] == Some(dependencies@[j]));
                                assert(0 <= q < n);
                            }
                        }
                        assert forall|j: int| 0 <= j < build_dependencies@.len() implies self.spec_index()[#[trigger] old_build[j]]
                            == Some(build_dependencies@[j]) by {
                            let q = old_build[j];
                            assert(before.spec_index()[q] == Some(build_dependencies@[j]));
                            assert(0 <= q < n);
                        }
                    }
                },
                DepKind::Build => {
                    proof {
                        assert(rank(dep_pkg as int) < rank(pkg as int));
                    }
                    let ghost old_build_deps = build_dependencies@;
                    let node_idx = self.insert_package(dep_pkg, ws, Ghost(rank));
                    build_dependencies.push(node_idx);
                    proof {
                        lemma_new_nodes_depended_on(before, *self, start.nodes@.len() as int, dep_pkg as int, node_idx, old_build_deps, build_dependencies@, dependencies@);
                        assert forall|p: int| 0 <= p < ws.packages@.len() && (#[trigger] self.spec_index()[p]) is Some
                            && start.spec_index()[p] is None implies rank(p) < rank(pkg as int) by {
                            if before.spec_index()[p] is None {
                                assert(rank(p) <= rank(dep_pkg as int));
                            } else {
                                assert(self.spec_index()[p] == before.spec_index()[p]);
                            }
                        }
                        let new_build = deps_of_kind(deps.take(k + 1), DepKind::Build);
                        assert(new_build == old_build.push(dep_pkg as int));
                        assert forall|j: int| 0 <= j < build_dependencies@.len() implies self.spec_index()[#[trigger] new_build[j]]
                            == Some(build_dependencies@[j]) by {
                            if j < build_dependencies@.len() - 1 {
                                let q = old_build[j];
                                assert(new_build[j] == q);
                                assert(before.spec_index()[q] == Some(build_dependencies@[j]));
                                assert(0 <= q < n);
                            }
                        }
                        assert forall|j: int| 0 <= j < dependencies@.len() implies self.spec_index()[#[trigger] old_normal[j]]
                            == Some(dependencies@[j]) by {
                            let q = old_normal[j];
                            assert(before.spec_index()[q] == Some(dependencies@[j]));
                            assert(0 <= q < n);
                        }
                    }
                },
                DepKind::Development => {},
            }
            k = k + 1;
        }
        assert(package.deps@.take(k as int) =~= package.deps@);
        let deps = dep_list(&package.deps);
        let node = BuildGraphNode {
            package: pkg,
            binaries: binary_crates(package, pkg == ws.root),
            build_script: build_script(package),
            dependency_renames: dependency_renames(&deps, DepFilter::Normal),
            library: library_crate(package),
            package_src: if package.is_path_source {
                Some(package.root.clone())
            } else {
                None
            },
        };
        let node_idx = self.nodes.len();
        let ghost before = *self;
        let ghost new_edges = NodeEdges { dependencies, build_dependencies };
        self.nodes.push(node);
        self.edges.push(NodeEdges { dependencies, build_dependencies });
        self.pkg_id_to_idx.set(pkg, Some(node_idx));
        proof {
            assert(self.edges@ == before.edges@.push(new_edges));
            assert forall|i: int| start.nodes@.len() <= i < self.nodes@.len() - 1 implies #[trigger] depended_on(
                self.edges@,
                i,
            ) by {
                if depended_on(before.edges@, i) {
                    lemma_depended_on_grows(before.edges@, self.edges@, i);
                } else if new_edges.dependencies@.contains(i as usize) {
                    let k = choose|k: int| 0 <= k < new_edges.dependencies@.len() && new_edges.dependencies@[k] == i as usize;
                    assert(self.edges@[node_idx as int] == new_edges);
                    assert(new_edges.dependencies@[k] == i);
                    assert(points_to(self.edges@[node_idx as int], i));
                } else {
                    let k = choose|k: int|
                        0 <= k < new_edges.build_dependencies@.len() && new_edges.build_dependencies@[k] == i as usize;
                    assert(self.edges@[node_idx as int] == new_edges);
                    assert(new_edges.build_dependencies@[k] == i);
                    assert(points_to(self.edges@[node_idx as int], i));
                }
            }
            let idx = self.spec_index();
            assert forall|p: int| 0 <= p < idx.len() && (#[trigger] idx[p]) is Some implies {
                &&& idx[p]->0 < self.nodes@.len()
                &&& self.nodes@[idx[p]->0 as int].package == p
            } by {
                if p != pkg {
                    assert(before.spec_index()[p] == idx[p]);
                }
            }
            assert forall|i: int| 0 <= i < self.nodes@.len() implies {
                &&& (#[trigger] self.nodes@[i]).package < ws.packages@.len()
                &&& idx[self.nodes@[i].package as int] == Some(i as usize)
                &&& is_node_of(ws, self.nodes@[i].package as int, self.nodes@[i])
                &&& edges_ok(idx, ws.packages@[self.nodes@[i].package as int].deps@, self.edges@[i], i)
            } by {
                if i < before.nodes@.len() {
                    assert(self.nodes@[i] == before.nodes@[i]);
                    assert(self.edges@[i] == before.edges@[i]);
                    let q = before.nodes@[i].package as int;
                    assert(q != pkg);
                    let d = ws.packages@[q].deps@;
                    let e = before.edges@[i];
                    assert forall|k: int| 0 <= k < deps_of_kind(d, DepKind::Normal).len()
                        implies idx[#[trigger] deps_of_kind(d, DepKind::Normal)[k]] == Some(e.dependencies@[k]) by {
                        let t = deps_of_kind(d, DepKind::Normal)[k];
                        assert(before.spec_index()[t] == Some(e.dependencies@[k]));
                        lemma_deps_of_kind_bounded(ws, q, DepKind::Normal);
                        if t == pkg {
                            assert(before.spec_index()[pkg as int] is None);
                        }
                    }
                    assert forall|k: int| 0 <= k < deps_of_kind(d, DepKind::Build).len()
                        implies idx[#[trigger] deps_of_kind(d, DepKind::Build)[k]] == Some(e.build_dependencies@[k]) by {
                        let t = deps_of_kind(d, DepKind::Build)[k];
                        assert(before.spec_index()[t] == Some(e.build_dependencies@[k]));
                        lemma_deps_of_kind_bounded(ws, q, DepKind::Build);
                        if t == pkg {
                            assert(before.spec_index()[pkg as int] is None);
                        }
                    }
                } else {
                    let d = ws.packages@[pkg as int].deps@;
                    let e = self.edges@[i];
                    assert forall|k: int| 0 <= k < deps_of_kind(d, DepKind::Normal).len()
                        implies idx[#[trigger] deps_of_kind(d, DepKind::Normal)[k]] == Some(e.dependencies@[k]) by {
                        let t = deps_of_kind(d, DepKind::Normal)[k];
                        assert(before.spec_index()[t] == Some(e.dependencies@[k]));
                        lemma_deps_of_kind_bounded(ws, pkg as int, DepKind::Normal);
                    }
                    assert forall|k: int| 0 <= k < deps_of_kind(d, DepKind::Build).len()
                        implies idx[#[trigger] deps_of_kind(d, DepKind::Build)[k]] == Some(e.build_dependencies@[k]) by {
                        let t = deps_of_kind(d, DepKind::Build)[k];
                        assert(before.spec_index()[t] == Some(e.build_dependencies@[k]));
                        lemma_deps_of_kind_bounded(ws, pkg as int, DepKind::Build);
                    }
                }
            }
            assert forall|p: int| 0 <= p < ws.packages@.len() && (#[trigger] start.spec_index()[p]) is Some implies self.spec_index()[p] == start.spec_index()[p] by {
                assert(before.spec_index()[p] == start.spec_index()[p]);
            }
            assert forall|p: int| 0 <= p < ws.packages@.len() && (#[trigger] self.spec_index()[p]) is Some
                && start.spec_index()[p] is None implies rank(p) <= rank(pkg as int) by {
                if p != pkg {
                    assert(before.spec_index()[p] == self.spec_index()[p]);
                }
            }
        }
        node_idx
    }
}

/// The packages that the dependencies of a package point to are packages of
/// the workspace.
pub proof fn lemma_deps_of_kind_bounded(ws: &Workspace, p: int, kind: DepKind)
    requires
        ws.wf(),
        0 <= p < ws.packages@.len(),
    ensures
        forall|k: int| 0 <= k < deps_of_kind(ws.packages@[p].deps@, kind).len()
            ==> 0 <= #[trigger] deps_of_kind(ws.packages@[p].deps@, kind)[k] < ws.packages@.len(),
{
    lemma_deps_of_kind_in(ws.packages@[p].deps@, kind, ws.packages@.len() as int);
    assert forall|j: int| 0 <= j < ws.packages@[p].deps@.len() implies ws.packages@[p].deps@[j].0 < ws.packages@.len() by {
        assert(ws.packages@[p].deps@[j].0 < ws.packages@.len());
    }
}

/// Every position `deps_of_kind` gives comes from a dependency.
proof fn lemma_deps_of_kind_in(deps: Seq<(usize, crate::renames::Dep)>, kind: DepKind, n: int)
    ensures
        (forall|j: int| 0 <= j < deps.len() ==> (#[trigger] deps[j]).0 < n) ==> forall|k: int|
            0 <= k < deps_of_kind(deps, kind).len() ==> 0 <= #[trigger] deps_of_kind(deps, kind)[k] < n,
    decreases deps.len(),
{
    if deps.len() > 0 {
        let init = deps.drop_last();
        lemma_deps_of_kind_in(init, kind, n);
        if forall|j: int| 0 <= j < deps.len() ==> (#[trigger] deps[j]).0 < n {
            assert forall|j: int| 0 <= j < init.len() implies (#[trigger] init[j]).0 < n by {
                assert(init[j] == deps[j]);
            }
            assert(deps.last() == deps[deps.len() - 1]);
            let rest = deps_of_kind(init, kind);
            let all = deps_of_kind(deps, kind);
            assert forall|k: int| 0 <= k < all.len() implies 0 <= #[trigger] all[k] < n by {
                if k < rest.len() {
                    assert(all[k] == rest[k]);
                }
            }
        }
    }
}

/// One more dependency adds its package to the packages of its kind.
proof fn lemma_deps_of_kind_step(deps: Seq<(usize, crate::renames::Dep)>, k: int, kind: DepKind)
    requires
        0 <= k < deps.len(),
    ensures
        deps_of_kind(deps.take(k + 1), kind) == if deps[k].1.kind == kind {
            deps_of_kind(deps.take(k), kind).push(deps[k].0 as int)
        } else {
            deps_of_kind(deps.take(k), kind)
        },
{
    assert(deps.take(k + 1).drop_last() =~= deps.take(k));
    assert(deps.take(k + 1).last() == deps[k]);
}

/// In a build graph, each node is what to build of its package, the node of
/// that package, and its edges lead to the nodes of the packages its normal
/// and build dependencies point to, in order.
pub proof fn lemma_node(g: &BuildGraph, ws: &Workspace, i: int)
    requires
        g.wf(ws),
        0 <= i < g.spec_nodes().len(),
    ensures
        g.spec_nodes().len() == g.spec_edges().len(),
        g.spec_nodes()[i].package < ws.packages@.len(),
        g.spec_index()[g.spec_nodes()[i].package as int] == Some(i as usize),
        is_node_of(ws, g.spec_nodes()[i].package as int, g.spec_nodes()[i]),
        edges_ok(g.spec_index(), ws.packages@[g.spec_nodes()[i].package as int].deps@, g.spec_edges()[i], i),
{
}

/// In a build graph, each package has at most one node: two nodes of the
/// same package are the same node.
pub proof fn lemma_one_node_per_package(g: &BuildGraph, ws: &Workspace, i: usize, j: usize)
    requires
        g.wf(ws),
        i < g.spec_nodes().len(),
        j < g.spec_nodes().len(),
        g.spec_nodes()[i as int].package == g.spec_nodes()[j as int].package,
    ensures
        i == j,
{
    lemma_node(g, ws, i as int);
    lemma_node(g, ws, j as int);
}

/// In a build graph, every edge leads from a node to an earlier one: a
/// package's dependencies are built before it.
pub proof fn lemma_edges_point_back(g: &BuildGraph, ws: &Workspace, i: int)
    requires
        g.wf(ws),
        0 <= i < g.spec_nodes().len(),
    ensures
        forall|k: int| 0 <= k < g.spec_edges()[i].dependencies@.len() ==> #[trigger] g.spec_edges()[i].dependencies@[k] < i,
        forall|k: int| 0 <= k < g.spec_edges()[i].build_dependencies@.len() ==> #[trigger] g.spec_edges()[i].build_dependencies@[k] < i,
{
    assert(edges_ok(g.spec_index(), ws.packages@[g.spec_nodes()[i].package as int].deps@, g.spec_edges()[i], i));
}

/// The dependencies of a crate: those of its library and binaries, and
/// those of its build script.
pub struct Dependencies<D> {
    pub normal: Vec<D>,
    pub build: Vec<D>,
}

/// Applies `fun` to each item of `items`, in order.
fn map_vec<D, E, F: Fn(D) -> E>(items: Vec<D>, fun: &F) -> (r: Vec<E>)
    requires
        forall|d: D| fun.requires((d,)),
    ensures
        r@.len() == items@.len(),
        forall|i: int| 0 <= i < items@.len() ==> fun.ensures((items@[i],), #[trigger] r@[i]),
{
    let ghost all = items@;
    let mut rest = items;
    let mut out: Vec<E> = Vec::new();
    while rest.len() > 0
        invariant
            forall|d: D| fun.requires((d,)),
            out@.len() + rest@.len() == all.len(),
            rest@ == all.skip(out@.len() as int),
            forall|i: int| 0 <= i < out@.len() ==> fun.ensures((all[i],), #[trigger] out@[i]),
        decreases rest@.len(),
    {
        let ghost k = out@.len() as int;
        let d = rest.remove(0);
        assert(d == all[k]);
        let e = fun(d);
        out.push(e);
        assert(rest@ =~= all.skip(k + 1));
    }
    out
}

impl<D> Dependencies<D> {
    /// The dependencies with `fun` applied to each.
    pub fn map<E, F: Fn(D) -> E>(self, fun: F) -> (r: Dependencies<E>)
        requires
            forall|d: D| fun.requires((d,)),
        ensures
            r.normal@.len() == self.normal@.len(),
            forall|i: int| 0 <= i < self.normal@.len() ==> fun.ensures((self.normal@[i],), #[trigger] r.normal@[i]),
            r.build@.len() == self.build@.len(),
            forall|i: int| 0 <= i < self.build@.len() ==> fun.ensures((self.build@[i],), #[trigger] r.build@[i]),
    {
        let build = map_vec(self.build, &fun);
        let normal = map_vec(self.normal, &fun);
        Dependencies { normal, build }
    }
}

} // verus!
