//! The attribute sets the derivations of a crate are made with: one
//! derivation per crate, named after the crate and its version, with its
//! sources, its three phases and its inputs, which the crate's overrides
//! may change.

use vstd::prelude::*;

use crate::attrset::{Attrset, LiteralAttrset, NixAttrset, ascii_bytes, attrs_wf, literal_attrs, names_of};
use crate::merge::{Merge, lemma_merge_len, merged};
use crate::package::literal_bytes_vec;
use crate::rustc::string_of;
use crate::value::{Context, NixValue, Node, SpecNode, items_view, lemma_nix_value_at, nix_value_at};

verus! {

/// The heap of `after` is that of `before`, then the nodes `added`.
pub open spec fn heap_extended(before: &Context, after: &Context, added: Seq<SpecNode>) -> bool {
    &&& after.wf()
    &&& after.heap() == before.heap() + added
    &&& after.spec_builtins() == before.spec_builtins()
}

/// The attributes of an attribute set of the heap stay the same as nodes
/// are added to the heap.
pub proof fn lemma_attrs_kept(set: Option<NixAttrset>, before: &Context, after: &Context, added: Seq<SpecNode>)
    requires
        set.attrset_wf(before),
        heap_extended(before, after, added),
    ensures
        set.attrset_wf(after),
        set.spec_attrs(after) == set.spec_attrs(before),
{
    if let Some(a) = set {
        let v = a.spec_value();
        assert(after.heap()[v.index()] == before.heap()[v.index()]);
    }
}

/// The nodes a crate's derivation attributes add to the heap, the first at
/// position `at`: the name, the three phases, `true`, the pattern `*.rlib`
/// and the list of it, the version, and the two lists of inputs.
pub open spec fn derivation_nodes(
    name: Seq<char>,
    version: Seq<char>,
    configure_phase: Seq<char>,
    build_phase: Seq<char>,
    install_phase: Seq<char>,
    at: int,
    native_build_inputs: Seq<NixValue>,
    build_inputs: Seq<NixValue>,
) -> Seq<SpecNode> {
    seq![
        SpecNode::String(name),
        SpecNode::String(configure_phase),
        SpecNode::String(build_phase),
        SpecNode::String(install_phase),
        SpecNode::Bool(true),
        SpecNode::String("*.rlib"@),
        SpecNode::List(seq![at + 5]),
        SpecNode::String(version),
        SpecNode::List(items_view(native_build_inputs)),
        SpecNode::List(items_view(build_inputs)),
    ]
}

/// The attributes every crate's derivation starts from, whose values were
/// added to the heap from position `at` on: its name, sources, phases, that
/// its outputs are not stripped (but for `.rlib` files), and its version.
pub open spec fn base_attrs(src: NixValue, at: int) -> Seq<(Seq<u8>, NixValue)> {
    seq![
        (ascii_bytes("name"@), nix_value_at(at)),
        (ascii_bytes("src"@), src),
        (ascii_bytes("configurePhase"@), nix_value_at(at + 1)),
        (ascii_bytes("buildPhase"@), nix_value_at(at + 2)),
        (ascii_bytes("installPhase"@), nix_value_at(at + 3)),
        (ascii_bytes("dontStrip"@), nix_value_at(at + 4)),
        (ascii_bytes("stripExclude"@), nix_value_at(at + 6)),
        (ascii_bytes("version"@), nix_value_at(at + 7)),
    ]
}

/// The inputs of a crate's derivation, whose lists were added to the heap
/// at positions `at + 8` and `at + 9`.
pub open spec fn input_attrs(at: int) -> Seq<(Seq<u8>, NixValue)> {
    seq![
        (ascii_bytes("nativeBuildInputs"@), nix_value_at(at + 8)),
        (ascii_bytes("buildInputs"@), nix_value_at(at + 9)),
    ]
}

/// A copy of the values `v`.
fn copy_values(v: &Vec<NixValue>) -> (r: Vec<NixValue>)
    ensures
        r@ == v@,
{
    let mut r: Vec<NixValue> = Vec::new();
    let mut i: usize = 0;
    while i < v.len()
        invariant
            i <= v@.len(),
            r@ == v@.take(i as int),
        decreases v@.len() - i,
    {
        r.push(v[i]);
        assert(v@.take(i + 1) =~= v@.take(i as int).push(v@[i as int]));
        i = i + 1;
    }
    assert(v@.take(v@.len() as int) =~= v@);
    r
}

/// Every value of `values` is in the heap of `ctx`.
pub open spec fn all_held(ctx: &Context, values: Seq<NixValue>) -> bool {
    forall|i: int| 0 <= i < values.len() ==> ctx.holds(#[trigger] values[i])
}

/// The attribute set a crate's derivation is made with: its name, sources,
/// phases and version, then the crate's overrides, then its native build
/// inputs and build inputs, each of which wins over what comes before it.
/// The strings, lists and `true` it needs are added to the heap.
pub fn derivation_attrs(
    name: &str,
    version: &str,
    src: NixValue,
    configure_phase: &str,
    build_phase: &str,
    install_phase: &str,
    overrides: Option<NixAttrset>,
    native_build_inputs: &Vec<NixValue>,
    build_inputs: &Vec<NixValue>,
    ctx: &mut Context,
) -> (r: Merge<Merge<LiteralAttrset, Option<NixAttrset>>, LiteralAttrset>)
    requires
        old(ctx).wf(),
        old(ctx).holds(src),
        overrides.attrset_wf(old(ctx)),
        overrides.spec_attrs(old(ctx)).len() + 10 <= u32::MAX,
        all_held(old(ctx), native_build_inputs@),
        all_held(old(ctx), build_inputs@),
        native_build_inputs@.len() <= u32::MAX,
        build_inputs@.len() <= u32::MAX,
        old(ctx).heap().len() + 10 < usize::MAX,
    ensures
        heap_extended(
            old(ctx),
            final(ctx),
            derivation_nodes(
                name@,
                version@,
                configure_phase@,
                build_phase@,
                install_phase@,
                old(ctx).heap().len() as int,
                native_build_inputs@,
                build_inputs@,
            ),
        ),
        r.attrset_wf(final(ctx)),
        r.spec_attrs(final(ctx)) == merged(
            merged(base_attrs(src, old(ctx).heap().len() as int), overrides.spec_attrs(old(ctx))),
            input_attrs(old(ctx).heap().len() as int),
        ),
{
    let ghost before = *ctx;
    let ghost n = ctx.heap().len() as int;
    proof {
        reveal_strlit("*.rlib");
    }
    let name_value = ctx.alloc_value(Node::String(string_of(name)));
    let configure_value = ctx.alloc_value(Node::String(string_of(configure_phase)));
    let build_value = ctx.alloc_value(Node::String(string_of(build_phase)));
    let install_value = ctx.alloc_value(Node::String(string_of(install_phase)));
    let strip_value = ctx.alloc_value(Node::Bool(true));
    let rlib_value = ctx.alloc_value(Node::String(string_of("*.rlib")));
    let mut patterns: Vec<NixValue> = Vec::new();
    patterns.push(rlib_value);
    proof {
        assert(items_view(patterns@) =~= seq![n + 5]);
    }
    let exclude_value = ctx.alloc_value(Node::List(patterns));
    let version_value = ctx.alloc_value(Node::String(string_of(version)));
    let native = copy_values(native_build_inputs);
    proof {
        assert forall|i: int| 0 <= i < items_view(native@).len() implies 0 <= #[trigger] items_view(native@)[i] < ctx.heap().len() by {
            assert(before.holds(native_build_inputs@[i]));
        }
    }
    let native_value = ctx.alloc_value(Node::List(native));
    let inputs = copy_values(build_inputs);
    proof {
        assert forall|i: int| 0 <= i < items_view(inputs@).len() implies 0 <= #[trigger] items_view(inputs@)[i] < ctx.heap().len() by {
            assert(before.holds(build_inputs@[i]));
        }
    }
    let inputs_value = ctx.alloc_value(Node::List(inputs));
    let ghost nodes = derivation_nodes(
        name@,
        version@,
        configure_phase@,
        build_phase@,
        install_phase@,
        n,
        native_build_inputs@,
        build_inputs@,
    );
    proof {
        assert(ctx.heap() =~= before.heap() + nodes);
        lemma_attrs_kept(overrides, &before, ctx, nodes);
        lemma_nix_value_at(name_value);
        lemma_nix_value_at(configure_value);
        lemma_nix_value_at(build_value);
        lemma_nix_value_at(install_value);
        lemma_nix_value_at(strip_value);
        lemma_nix_value_at(exclude_value);
        lemma_nix_value_at(version_value);
        lemma_nix_value_at(native_value);
        lemma_nix_value_at(inputs_value);
    }
    let base = base_literal(src, name_value, configure_value, build_value, install_value, strip_value, exclude_value, version_value);
    proof {
        assert(base.spec_attrs(ctx) =~= base_attrs(src, n));
        assert(attrs_wf(ctx, base.spec_attrs(ctx)));
        overrides.lemma_attrs_wf(ctx);
        lemma_merge_len(base.spec_attrs(ctx), overrides.spec_attrs(ctx));
    }
    let with_overrides = Merge::new(base, overrides, ctx);
    let input_set = inputs_literal(native_value, inputs_value);
    proof {
        assert(input_set.spec_attrs(ctx) =~= input_attrs(n));
        with_overrides.lemma_attrs_wf(ctx);
        input_set.lemma_attrs_wf(ctx);
        lemma_merge_len(with_overrides.spec_attrs(ctx), input_set.spec_attrs(ctx));
    }
    Merge::new(with_overrides, input_set, ctx)
}

/// The literal attribute set of a derivation's name, sources, phases,
/// stripping and version.
fn base_literal(
    src: NixValue,
    name: NixValue,
    configure_phase: NixValue,
    build_phase: NixValue,
    install_phase: NixValue,
    dont_strip: NixValue,
    strip_exclude: NixValue,
    version: NixValue,
) -> (r: LiteralAttrset)
    ensures
        literal_attrs(r.spec_keys(), r.spec_values()) == seq![
            (ascii_bytes("name"@), name),
            (ascii_bytes("src"@), src),
            (ascii_bytes("configurePhase"@), configure_phase),
            (ascii_bytes("buildPhase"@), build_phase),
            (ascii_bytes("installPhase"@), install_phase),
            (ascii_bytes("dontStrip"@), dont_strip),
            (ascii_bytes("stripExclude"@), strip_exclude),
            (ascii_bytes("version"@), version),
        ],
        r.spec_keys().len() == r.spec_values().len(),
        names_of(literal_attrs(r.spec_keys(), r.spec_values())).no_duplicates(),
        forall|i: int| 0 <= i < r.spec_keys().len() ==> crate::value::valid_name(#[trigger] r.spec_keys()[i]),
{
    proof {
        reveal_strlit("name");
        reveal_strlit("src");
        reveal_strlit("configurePhase");
        reveal_strlit("buildPhase");
        reveal_strlit("installPhase");
        reveal_strlit("dontStrip");
        reveal_strlit("stripExclude");
        reveal_strlit("version");
    }
    let mut keys: Vec<Vec<u8>> = Vec::new();
    keys.push(literal_bytes_vec("name"));
    keys.push(literal_bytes_vec("src"));
    keys.push(literal_bytes_vec("configurePhase"));
    keys.push(literal_bytes_vec("buildPhase"));
    keys.push(literal_bytes_vec("installPhase"));
    keys.push(literal_bytes_vec("dontStrip"));
    keys.push(literal_bytes_vec("stripExclude"));
    keys.push(literal_bytes_vec("version"));
    let mut values: Vec<NixValue> = Vec::new();
    values.push(name);
    values.push(src);
    values.push(configure_phase);
    values.push(build_phase);
    values.push(install_phase);
    values.push(dont_strip);
    values.push(strip_exclude);
    values.push(version);
    let ghost k = keys@;
    let r = LiteralAttrset::new(keys, values);
    proof {
        assert(crate::lex::keys_view(k) =~= seq![
            ascii_bytes("name"@),
            ascii_bytes("src"@),
            ascii_bytes("configurePhase"@),
            ascii_bytes("buildPhase"@),
            ascii_bytes("installPhase"@),
            ascii_bytes("dontStrip"@),
            ascii_bytes("stripExclude"@),
            ascii_bytes("version"@),
        ]);
        assert(names_of(literal_attrs(r.spec_keys(), r.spec_values())) =~= r.spec_keys());
        let ks = r.spec_keys();
        assert(ks[0].len() == 4 && ks[1].len() == 3 && ks[2].len() == 14 && ks[3].len() == 10);
        assert(ks[4].len() == 12 && ks[5].len() == 9 && ks[6].len() == 12 && ks[7].len() == 7);
        assert(ks[4][0] != ks[6][0]);
        assert forall|i: int, j: int| 0 <= i < ks.len() && 0 <= j < ks.len() && i != j implies ks[i] != ks[j] by {
            if (i == 4 && j == 6) || (i == 6 && j == 4) {
                assert(ks[i][0] != ks[j][0]);
            } else {
                assert(ks[i].len() != ks[j].len());
            }
        }
    }
    r
}

/// The literal attribute set of a derivation's native build inputs and
/// build inputs.
fn inputs_literal(native_build_inputs: NixValue, build_inputs: NixValue) -> (r: LiteralAttrset)
    ensures
        literal_attrs(r.spec_keys(), r.spec_values()) == seq![
            (ascii_bytes("nativeBuildInputs"@), native_build_inputs),
            (ascii_bytes("buildInputs"@), build_inputs),
        ],
        r.spec_keys().len() == r.spec_values().len(),
        names_of(literal_attrs(r.spec_keys(), r.spec_values())).no_duplicates(),
        forall|i: int| 0 <= i < r.spec_keys().len() ==> crate::value::valid_name(#[trigger] r.spec_keys()[i]),
{
    proof {
        reveal_strlit("nativeBuildInputs");
        reveal_strlit("buildInputs");
    }
    let mut keys: Vec<Vec<u8>> = Vec::new();
    keys.push(literal_bytes_vec("nativeBuildInputs"));
    keys.push(literal_bytes_vec("buildInputs"));
    let mut values: Vec<NixValue> = Vec::new();
    values.push(native_build_inputs);
    values.push(build_inputs);
    let ghost k = keys@;
    let r = LiteralAttrset::new(keys, values);
    proof {
        assert(crate::lex::keys_view(k) =~= seq![ascii_bytes("nativeBuildInputs"@), ascii_bytes("buildInputs"@)]);
        assert(names_of(literal_attrs(r.spec_keys(), r.spec_values())) =~= r.spec_keys());
        let ks = r.spec_keys();
        assert(ks[0].len() == 17 && ks[1].len() == 11);
    }
    r
}

/// The nodes the attributes of a crate's dependencies derivation add to the
/// heap, the first at position `at`: the name, the list of build inputs,
/// the install phase, the name of that phase and the list of it.
pub open spec fn deps_nodes(name: Seq<char>, build_inputs: Seq<NixValue>, install_phase: Seq<char>, at: int) -> Seq<SpecNode> {
    seq![
        SpecNode::String(name),
        SpecNode::List(items_view(build_inputs)),
        SpecNode::String(install_phase),
        SpecNode::String("installPhase"@),
        SpecNode::List(seq![at + 3]),
    ]
}

/// The attributes of the derivation that gathers a crate's dependencies,
/// whose values were added to the heap from position `at` on: its name, its
/// build inputs, its install phase, and that it runs that phase only.
pub open spec fn deps_attrs_of(at: int) -> Seq<(Seq<u8>, NixValue)> {
    seq![
        (ascii_bytes("name"@), nix_value_at(at)),
        (ascii_bytes("buildInputs"@), nix_value_at(at + 1)),
        (ascii_bytes("installPhase"@), nix_value_at(at + 2)),
        (ascii_bytes("phases"@), nix_value_at(at + 4)),
    ]
}

/// The attribute set the derivation that gathers a crate's dependencies is
/// made with: its name, its build inputs (the crate's direct dependencies,
/// then those its overrides add), its install phase, and the list of the
/// phases it runs, the install phase alone. The strings and lists it needs
/// are added to the heap.
pub fn deps_attrs(name: &str, build_inputs: &Vec<NixValue>, install_phase: &str, ctx: &mut Context) -> (r: LiteralAttrset)
    requires
        old(ctx).wf(),
        all_held(old(ctx), build_inputs@),
        build_inputs@.len() <= u32::MAX,
        old(ctx).heap().len() + 5 < usize::MAX,
    ensures
        heap_extended(
            old(ctx),
            final(ctx),
            deps_nodes(name@, build_inputs@, install_phase@, old(ctx).heap().len() as int),
        ),
        r.attrset_wf(final(ctx)),
        r.spec_attrs(final(ctx)) == deps_attrs_of(old(ctx).heap().len() as int),
{
    let ghost before = *ctx;
    let ghost n = ctx.heap().len() as int;
    proof {
        reveal_strlit("installPhase");
    }
    let name_value = ctx.alloc_value(Node::String(string_of(name)));
    let inputs = copy_values(build_inputs);
    proof {
        assert forall|i: int| 0 <= i < items_view(inputs@).len() implies 0 <= #[trigger] items_view(inputs@)[i] < ctx.heap().len() by {
            assert(before.holds(build_inputs@[i]));
        }
    }
    let inputs_value = ctx.alloc_value(Node::List(inputs));
    let install_value = ctx.alloc_value(Node::String(string_of(install_phase)));
    let phase_value = ctx.alloc_value(Node::String(string_of("installPhase")));
    let mut phases: Vec<NixValue> = Vec::new();
    phases.push(phase_value);
    proof {
        assert(items_view(phases@) =~= seq![n + 3]);
    }
    let phases_value = ctx.alloc_value(Node::List(phases));
    proof {
        assert(ctx.heap() =~= before.heap() + deps_nodes(name@, build_inputs@, install_phase@, n));
        lemma_nix_value_at(name_value);
        lemma_nix_value_at(inputs_value);
        lemma_nix_value_at(install_value);
        lemma_nix_value_at(phases_value);
        reveal_strlit("name");
        reveal_strlit("buildInputs");
        reveal_strlit("phases");
    }
    let mut keys: Vec<Vec<u8>> = Vec::new();
    keys.push(literal_bytes_vec("name"));
    keys.push(literal_bytes_vec("buildInputs"));
    keys.push(literal_bytes_vec("installPhase"));
    keys.push(literal_bytes_vec("phases"));
    let mut values: Vec<NixValue> = Vec::new();
    values.push(name_value);
    values.push(inputs_value);
    values.push(install_value);
    values.push(phases_value);
    let ghost k = keys@;
    let r = LiteralAttrset::new(keys, values);
    proof {
        assert(crate::lex::keys_view(k) =~= seq![
            ascii_bytes("name"@),
            ascii_bytes("buildInputs"@),
            ascii_bytes("installPhase"@),
            ascii_bytes("phases"@),
        ]);
        assert(r.spec_attrs(ctx) =~= deps_attrs_of(n));
        assert(names_of(r.spec_attrs(ctx)) =~= r.spec_keys());
        let ks = r.spec_keys();
        assert(ks[0].len() == 4 && ks[1].len() == 11 && ks[2].len() == 12 && ks[3].len() == 6);
    }
    r
}

} // verus!
