use jettison::derived_attrset::{DerivedAttrset, DerivedField, derived_attrset_plan};
use jettison::attrset::{Attrset, NixAttrset};
use jettison::derivation::{deps_attrs, derivation_attrs};
use jettison::value::{Attr, Context, NixValue, Node};

fn string_at(ctx: &Context, v: NixValue) -> String {
    match ctx.node_ref(v) {
        Node::String(s) => s.clone(),
        other => panic!("expected a string, found {:?}", other),
    }
}

fn list_at(ctx: &Context, v: NixValue) -> Vec<NixValue> {
    match ctx.node_ref(v) {
        Node::List(items) => items.clone(),
        other => panic!("expected a list, found {:?}", other),
    }
}

fn names(pairs: &[(Vec<u8>, NixValue)]) -> Vec<String> {
    pairs.iter().map(|(k, _)| String::from_utf8(k.clone()).unwrap()).collect()
}

#[test]
fn derivation_attributes_without_overrides() {
    let mut ctx = Context::new();
    let src = ctx.alloc_value(Node::Path("/src/foo".to_string()));
    let rustc = ctx.alloc_value(Node::Null);
    let lib = ctx.alloc_value(Node::Null);
    let attrs = derivation_attrs(
        "foo-1.0.0-lib",
        "1.0.0",
        src,
        "configure",
        "build",
        "install",
        None,
        &vec![rustc],
        &vec![lib],
        &mut ctx,
    );
    let pairs = attrs.pairs(&ctx);
    assert_eq!(
        names(&pairs),
        vec![
            "name",
            "src",
            "configurePhase",
            "buildPhase",
            "installPhase",
            "dontStrip",
            "stripExclude",
            "version",
            "nativeBuildInputs",
            "buildInputs",
        ]
    );
    assert_eq!(string_at(&ctx, attrs.with_value(b"name", &ctx).unwrap()), "foo-1.0.0-lib");
    assert_eq!(attrs.with_value(b"src", &ctx), Some(src));
    assert_eq!(string_at(&ctx, attrs.with_value(b"configurePhase", &ctx).unwrap()), "configure");
    assert_eq!(string_at(&ctx, attrs.with_value(b"buildPhase", &ctx).unwrap()), "build");
    assert_eq!(string_at(&ctx, attrs.with_value(b"installPhase", &ctx).unwrap()), "install");
    assert!(matches!(ctx.node_ref(attrs.with_value(b"dontStrip", &ctx).unwrap()), Node::Bool(true)));
    let exclude = list_at(&ctx, attrs.with_value(b"stripExclude", &ctx).unwrap());
    assert_eq!(exclude.len(), 1);
    assert_eq!(string_at(&ctx, exclude[0]), "*.rlib");
    assert_eq!(string_at(&ctx, attrs.with_value(b"version", &ctx).unwrap()), "1.0.0");
    assert_eq!(list_at(&ctx, attrs.with_value(b"nativeBuildInputs", &ctx).unwrap()), vec![rustc]);
    assert_eq!(list_at(&ctx, attrs.with_value(b"buildInputs", &ctx).unwrap()), vec![lib]);
}

#[test]
fn overrides_win_over_the_base_but_not_over_the_inputs() {
    let mut ctx = Context::new();
    let src = ctx.alloc_value(Node::Null);
    let patched = ctx.alloc_value(Node::String("patched".to_string()));
    let ignored = ctx.alloc_value(Node::Null);
    let extra = ctx.alloc_value(Node::Int(1));
    let overrides = ctx.alloc_value(Node::Attrset(vec![
        Attr { name: b"buildPhase".to_vec(), value: patched },
        Attr { name: b"buildInputs".to_vec(), value: ignored },
        Attr { name: b"doCheck".to_vec(), value: extra },
    ]));
    let overrides = NixAttrset::from_value(overrides, &ctx);
    let attrs = derivation_attrs("n", "v", src, "c", "b", "i", Some(overrides), &vec![], &vec![], &mut ctx);
    let pairs = attrs.pairs(&ctx);
    assert_eq!(
        names(&pairs),
        vec![
            "name",
            "src",
            "configurePhase",
            "buildPhase",
            "installPhase",
            "dontStrip",
            "stripExclude",
            "version",
            "buildInputs",
            "doCheck",
            "nativeBuildInputs",
        ]
    );
    assert_eq!(attrs.with_value(b"buildPhase", &ctx), Some(patched));
    assert_eq!(attrs.with_value(b"doCheck", &ctx), Some(extra));
    let inputs = attrs.with_value(b"buildInputs", &ctx).unwrap();
    assert_ne!(inputs, ignored);
    assert_eq!(list_at(&ctx, inputs), Vec::<NixValue>::new());
}

#[test]
fn dependencies_derivation_attributes() {
    let mut ctx = Context::new();
    let dep = ctx.alloc_value(Node::Null);
    let attrs = deps_attrs("foo-1.0.0-deps", &vec![dep], "runHook preInstall", &mut ctx);
    let pairs = attrs.pairs(&ctx);
    assert_eq!(names(&pairs), vec!["name", "buildInputs", "installPhase", "phases"]);
    assert_eq!(string_at(&ctx, attrs.with_value(b"name", &ctx).unwrap()), "foo-1.0.0-deps");
    assert_eq!(list_at(&ctx, attrs.with_value(b"buildInputs", &ctx).unwrap()), vec![dep]);
    assert_eq!(string_at(&ctx, attrs.with_value(b"installPhase", &ctx).unwrap()), "runHook preInstall");
    let phases = list_at(&ctx, attrs.with_value(b"phases", &ctx).unwrap());
    assert_eq!(phases.len(), 1);
    assert_eq!(string_at(&ctx, phases[0]), "installPhase");
}

#[test]
fn derived_attrset_layout() {
    let fields = vec![
        DerivedField { key_name: "name".to_string(), has_skip: false },
        DerivedField { key_name: "buildInputs".to_string(), has_skip: true },
        DerivedField { key_name: "version".to_string(), has_skip: false },
        DerivedField { key_name: "src".to_string(), has_skip: true },
    ];
    let plan = derived_attrset_plan(&fields);
    assert_eq!(plan.keys, vec!["name", "buildInputs", "version", "src"]);
    assert_eq!(plan.might_skip, vec![1, 3]);
}

#[test]
fn derived_attrset_skips_the_skipped_fields() {
    let mut ctx = Context::new();
    let a = ctx.alloc_value(Node::Int(1));
    let b = ctx.alloc_value(Node::Int(2));
    let c = ctx.alloc_value(Node::Int(3));
    let set = DerivedAttrset::new(
        vec![b"a".to_vec(), b"b".to_vec(), b"c".to_vec()],
        vec![1, 2],
        vec![true, true, false],
        vec![a, b, c],
    );
    assert_eq!(set.len(&ctx), 2);
    assert_eq!(names(&set.pairs(&ctx)), vec!["a", "c"]);
    assert_eq!(set.with_value(b"a", &ctx), Some(a));
    assert_eq!(set.with_value(b"b", &ctx), None);
    assert_eq!(set.with_value(b"c", &ctx), Some(c));
    assert_eq!(set.with_value(b"d", &ctx), None);
}
