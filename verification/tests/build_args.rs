use jettison::build_crate::{
    CrateSource, CrateSrcValue, OptionalBuildCrateArgs, OptionalBuildCrateArgsInner, RequiredBuildCrateArgs, join_path,
};
use jettison::build_lib::{BuildLibArgs, DepLib};
use jettison::crate_args::{BuildCrateArgs, escape_description};
use jettison::graph::{BuildGraph, Dependencies, Workspace};
use jettison::naming::{HashMapPairs, Rename, to_camel_case};
use jettison::namespace::{Namespace, PoppableNamespace};
use jettison::package::{package_library, plan_node};
use jettison::phases::{
    DerivationKind, PackageAttrs, PlatformInfo, build_phase, configure_phase, deps_derivation_name, deps_install_phase,
    derivation_name, feature_env_name,
    install_phase, join_authors,
};
use jettison::renames::{
    Dep, DepFilter, DepKind, DependencyRename, DependencyRenames, RenameWithVersion, dependency_renames,
    lib_name_for_dep,
};
use jettison::rustc::{
    BinaryCrate, BuildOpts, BuildScript, Crate, DirectDep, Edition, LibraryCrate, LibraryFormat, build_rustc_args,
    dependencies_rustc_args, edition_as_str, feature_rustc_args,
};
use jettison::targets::{BuildSetting, CrateType, PackageInfo, TargetInfo, TargetKind, strip_root};

fn s(x: &str) -> String {
    x.to_string()
}

fn strings(xs: &[&str]) -> Vec<String> {
    xs.iter().map(|x| x.to_string()).collect()
}

fn dep(kind: DepKind, rename: Option<&str>, package: &str, req: &str) -> Dep {
    Dep { kind, name_in_toml: rename.map(s), package_name: s(package), version_req: s(req) }
}

fn no_opts() -> BuildOpts {
    BuildOpts { codegen_units: None, extra_rustc_args: Vec::new() }
}

fn simple_of(r: Option<&DependencyRename>) -> Option<String> {
    match r {
        Some(DependencyRename::Simple(x)) => Some(x.clone()),
        _ => None,
    }
}

fn extended_of(r: Option<&DependencyRename>) -> Option<Vec<(String, String)>> {
    match r {
        Some(DependencyRename::Extended(v)) => Some(v.iter().map(|x| (x.rename.clone(), x.version_req.clone())).collect()),
        _ => None,
    }
}

#[test]
fn renames_group_by_package() {
    let deps = vec![
        dep(DepKind::Normal, Some("foo_v1"), "foo", "^1"),
        dep(DepKind::Normal, None, "bar", "^2"),
        dep(DepKind::Normal, Some("foo_v2"), "foo", "^2"),
        dep(DepKind::Normal, Some("baz2"), "baz", "^0.3"),
        dep(DepKind::Build, Some("cc_build"), "cc", "^1"),
        dep(DepKind::Development, Some("dev_only"), "quickcheck", "^1"),
    ];
    let normal = dependency_renames(&deps, DepFilter::Normal);
    assert_eq!(extended_of(normal.get("foo")), Some(vec![(s("foo_v1"), s("^1")), (s("foo_v2"), s("^2"))]));
    assert_eq!(simple_of(normal.get("baz")), Some(s("baz2")));
    assert!(normal.get("bar").is_none());
    assert!(normal.get("cc").is_none());
    assert!(normal.get("quickcheck").is_none());
    assert_eq!(normal.entries().len(), 2);

    let build = dependency_renames(&deps, DepFilter::Build);
    assert_eq!(simple_of(build.get("cc")), Some(s("cc_build")));
    assert_eq!(build.entries().len(), 1);

    let all = dependency_renames(&deps, DepFilter::NonDev);
    assert_eq!(all.entries().len(), 3);
    assert!(all.get("quickcheck").is_none());

    let none = dependency_renames(&Vec::new(), DepFilter::Normal);
    assert!(none.is_empty());
    assert!(DependencyRenames::new().is_empty());
}

#[test]
fn renamed_library_names() {
    let deps = vec![
        dep(DepKind::Normal, Some("rand_old"), "rand", "^0.7"),
        dep(DepKind::Normal, Some("rand_new"), "rand", "^0.8"),
        dep(DepKind::Normal, Some("json"), "serde_json", "1"),
    ];
    let renames = dependency_renames(&deps, DepFilter::Normal);
    assert_eq!(lib_name_for_dep(&renames, "rand", "0.7.3", "rand"), "rand_old");
    assert_eq!(lib_name_for_dep(&renames, "rand", "0.8.5", "rand"), "rand_new");
    assert_eq!(lib_name_for_dep(&renames, "rand", "0.9.0", "rand"), "rand");
    assert_eq!(lib_name_for_dep(&renames, "serde_json", "1.0.0", "serde_json"), "json");
    assert_eq!(lib_name_for_dep(&renames, "libc", "0.2.0", "libc"), "libc");
}

#[test]
fn editions_and_formats() {
    assert_eq!(edition_as_str(Edition::Edition2015), "2015");
    assert_eq!(edition_as_str(Edition::Edition2021), "2021");
    assert_eq!(edition_as_str(Edition::EditionFuture), "future");
    assert_eq!(LibraryFormat::ProcMacro.as_str(), "proc-macro");
    assert_eq!(LibraryFormat::Cdylib.as_str(), "cdylib");
    assert_eq!(CrateType::Staticlib.as_str(), "staticlib");
    let lib = LibraryCrate { build_opts: no_opts(), name: s("m"), path: s("src/lib.rs"), formats: vec![LibraryFormat::ProcMacro] };
    assert!(lib.is_proc_macro());
    let lib = LibraryCrate { build_opts: no_opts(), name: s("m"), path: s("src/lib.rs"), formats: vec![LibraryFormat::ProcMacro, LibraryFormat::Lib] };
    assert!(!lib.is_proc_macro());
}

fn sample_deps() -> Vec<DirectDep> {
    vec![
        DirectDep { package_name: s("serde"), version: s("1.0.0"), lib_name: s("serde"), lib_is_proc_macro: false, out_path: s("/nix/store/a-serde") },
        DirectDep { package_name: s("serde_derive"), version: s("1.0.0"), lib_name: s("serde_derive"), lib_is_proc_macro: true, out_path: s("/nix/store/b-derive") },
    ]
}

#[test]
fn rustc_arguments_of_a_library() {
    let renames = dependency_renames(&vec![dep(DepKind::Normal, Some("sd"), "serde_derive", "1")], DepFilter::Normal);
    let lib = LibraryCrate {
        build_opts: BuildOpts { codegen_units: Some(16), extra_rustc_args: strings(&["-Cfoo"]) },
        name: s("mylib"),
        path: s("src/lib.rs"),
        formats: vec![LibraryFormat::Rlib, LibraryFormat::Cdylib],
    };
    let cr8 = Crate::from_library(&lib, &renames);
    assert_eq!(cr8.types_arg, "rlib,cdylib");
    assert!(cr8.is_compiled_for_host);
    let args = build_rustc_args(&cr8, &sample_deps(), &strings(&["std"]), true, Some("aarch64-unknown-linux-gnu"), Edition::Edition2021, "so");
    assert_eq!(
        args,
        strings(&[
            "src/lib.rs",
            "--crate-name",
            "mylib",
            "--out-dir",
            "$out",
            "--edition",
            "2021",
            "--cap-lints allow",
            "--remap-path-prefix $NIX_BUILD_TOP=/",
            "--color always",
            "--codegen",
            "opt-level=3",
            "--codegen",
            "codegen-units=16",
            "--crate-type",
            "rlib,cdylib",
            "--extern",
            "serde=/nix/store/a-serde/libserde.rlib",
            "--extern",
            "sd=/nix/store/b-derive/libserde_derive.so",
            "--target",
            "aarch64-unknown-linux-gnu",
            "--cfg",
            "feature=\\\"std\\\"",
            "-Cfoo",
        ])
    );
}

#[test]
fn rustc_arguments_of_a_proc_macro_and_a_build_script() {
    let renames = DependencyRenames::new();
    let lib = LibraryCrate { build_opts: no_opts(), name: s("m"), path: s("src/lib.rs"), formats: vec![LibraryFormat::ProcMacro] };
    let cr8 = Crate::from_library(&lib, &renames);
    assert!(cr8.is_proc_macro);
    let args = build_rustc_args(&cr8, &Vec::new(), &Vec::new(), false, Some("x86_64-unknown-linux-gnu"), Edition::Edition2018, "so");
    assert_eq!(args[11], "debuginfo=2");
    assert_eq!(args[13], "codegen-units=1");
    assert_eq!(args[15], "proc-macro");
    assert_eq!(args[16], "--extern proc_macro");
    assert_eq!(args.len(), 17);

    let script = BuildScript { build_opts: no_opts(), dependency_renames: DependencyRenames::new(), path: s("build.rs") };
    let cr8 = Crate::from_build_script(&script);
    assert_eq!(cr8.name, "build_script_build");
    let args = build_rustc_args(&cr8, &Vec::new(), &Vec::new(), false, Some("x86_64-unknown-linux-gnu"), Edition::Edition2018, "so");
    assert_eq!(args.len(), 16);
    assert_eq!(args[15], "bin");

    let bin = BinaryCrate { build_opts: no_opts(), name: s("tool"), path: s("src/main.rs"), required_features: Vec::new() };
    let cr8 = Crate::from_binary(&bin, &renames);
    let args = build_rustc_args(&cr8, &Vec::new(), &Vec::new(), false, Some("t"), Edition::Edition2024, "so");
    assert_eq!(&args[args.len() - 2..], &strings(&["--target", "t"])[..]);
}

#[test]
fn dependency_and_feature_arguments() {
    let args = dependencies_rustc_args(&sample_deps(), &DependencyRenames::new(), "dylib");
    assert_eq!(args, strings(&["--extern", "serde=/nix/store/a-serde/libserde.rlib", "--extern", "serde_derive=/nix/store/b-derive/libserde_derive.dylib"]));
    assert_eq!(feature_rustc_args(&strings(&["a", "b-c"])), strings(&["--cfg", "feature=\\\"a\\\"", "--cfg", "feature=\\\"b-c\\\""]));
}

#[test]
fn build_phase_of_binaries() {
    let renames = DependencyRenames::new();
    let bins = vec![
        Crate::from_binary(&BinaryCrate { build_opts: no_opts(), name: s("a"), path: s("src/bin/a.rs"), required_features: Vec::new() }, &renames),
        Crate::from_binary(&BinaryCrate { build_opts: no_opts(), name: s("b"), path: s("src/bin/b.rs"), required_features: Vec::new() }, &renames),
    ];
    let phase = build_phase(&bins, &Vec::new(), &Vec::new(), true, None, Edition::Edition2021, "so");
    let one = |name: &str, path: &str| {
        format!(
            "\nrustc {path} --crate-name {name} --out-dir $out --edition 2021 --cap-lints allow --remap-path-prefix $NIX_BUILD_TOP=/ --color always --codegen opt-level=3 --codegen codegen-units=1 --crate-type bin -L dependency=$out/deps -L native=$out/deps/native ${{EXTRA_RUSTC_ARGS:-}}"
        )
    };
    assert_eq!(phase, format!("runHook preBuild\n{}{}\nrunHook postBuild", one("a", "src/bin/a.rs"), one("b", "src/bin/b.rs")));
}

#[test]
fn install_phases() {
    assert_eq!(install_phase(&strings(&["std"]), "foo", "1.0.0", false), "runHook preInstall\nrunHook postInstall");
    let phase = install_phase(&strings(&["std", "serde-support"]), "foo", "1.2.3", true);
    assert_eq!(
        phase,
        "runHook preInstall\nexport CARGO_FEATURE_STD=1\nexport CARGO_FEATURE_SERDE_SUPPORT=1\nexport OUT_DIR=$out/out\nmkdir -p $OUT_DIR\n$out/build_script_build | tee $out/build_script_output.txt\nparse-build-script-output \\\n    $out/build_script_output.txt \\\n    $out/common.sh \\\n    $out/lib.sh \\\n    $out/bin.sh \\\n    EXTRA_RUSTC_ARGS \\\n    foo \\\n    1.2.3\nrunHook postInstall"
    );
    assert_eq!(feature_env_name("default-tls"), "DEFAULT_TLS");
}

#[test]
fn derivation_names() {
    assert_eq!(derivation_name("foo", "1.0.0", &DerivationKind::BuildScript), "foo-1.0.0-build");
    assert_eq!(derivation_name("foo", "1.0.0", &DerivationKind::Library), "foo-1.0.0-lib");
    assert_eq!(derivation_name("foo", "1.0.0", &DerivationKind::Binaries(1)), "foo-1.0.0-bin");
    assert_eq!(derivation_name("foo", "1.0.0", &DerivationKind::Binaries(3)), "foo-1.0.0-bins");
    assert!(DerivationKind::BuildScript.is_build_script());
    assert!(DerivationKind::Library.is_library());
    assert_eq!(DerivationKind::BuildScript.out_dir(), "target/build");
    assert_eq!(DerivationKind::Library.out_dir(), "target/lib");
    assert_eq!(DerivationKind::Binaries(2).out_dir(), "target/bin");
}

fn sample_attrs() -> PackageAttrs {
    PackageAttrs {
        authors: strings(&["Alice <a@x.org>", "Bob"]),
        description: Some(s("It's a \"test\"")),
        edition: Edition::Edition2021,
        features: strings(&["std"]),
        homepage: None,
        license: Some(s("MIT")),
        license_file: None,
        links: Some(s("z")),
        name: s("foo"),
        readme: None,
        repository: Some(s("https://example.org/foo")),
        rust_version: None,
        version: s("1.2.3-beta.1"),
        version_major: 1,
        version_minor: 2,
        version_patch: 3,
        version_pre: s("beta.1"),
    }
}

fn sample_platform() -> PlatformInfo {
    PlatformInfo {
        target_arch: s("x86_64"),
        is_cpu_little_endian: true,
        target_os: s("linux"),
        target_pointer_width: 64,
        target_vendor: s("unknown"),
        host: s("x86_64-unknown-linux-gnu"),
        target: s("x86_64-unknown-linux-gnu"),
    }
}

#[test]
fn configure_phase_text() {
    let phase = configure_phase(&sample_attrs(), Some("/nix/store/bs"), true, true, "/nix/store/deps", &sample_platform());
    let expected = "runHook preConfigure
export CARGO_CFG_TARGET_ARCH=x86_64
export CARGO_CFG_TARGET_ENDIAN=little
export CARGO_CFG_TARGET_ENV=\"gnu\"
export CARGO_CFG_TARGET_FAMILY=\"unix\"
export CARGO_CFG_TARGET_OS=linux
export CARGO_CFG_TARGET_POINTER_WIDTH=64
export CARGO_CFG_TARGET_VENDOR=unknown
export CARGO_CFG_UNIX=1
export CARGO_MANIFEST_DIR=$(pwd)
export CARGO_MANIFEST_LINKS=z
export CARGO_PKG_AUTHORS=\"Alice <a@x.org>:Bob\"
export CARGO_PKG_DESCRIPTION='It'\\''s a \"test\"'
export CARGO_PKG_HOMEPAGE=\"\"
export CARGO_PKG_LICENSE=\"MIT\"
export CARGO_PKG_LICENSE_FILE=\"\"
export CARGO_PKG_NAME=foo
export CARGO_PKG_README=\"\"
export CARGO_PKG_REPOSITORY=\"https://example.org/foo\"
export CARGO_PKG_RUST_VERSION=\"\"
export CARGO_PKG_VERSION=1.2.3-beta.1
export CARGO_PKG_VERSION_MAJOR=1
export CARGO_PKG_VERSION_MINOR=2
export CARGO_PKG_VERSION_PATCH=3
export CARGO_PKG_VERSION_PRE=\"beta.1\"
export DEBUG=1
export HOST=x86_64-unknown-linux-gnu
export NUM_JOBS=$NIX_BUILD_CORES
export OPT_LEVEL=3
export PROFILE=release
export RUSTC=\"rustc\"
export RUSTDOC=\"rustdoc\"
export TARGET=x86_64-unknown-linux-gnu
export OUT_DIR=/nix/store/bs/out
source /nix/store/bs/lib.sh
mkdir -p $out
ln -s /nix/store/deps $out/deps
runHook postConfigure";
    assert_eq!(phase, expected);
    let mut attrs = sample_attrs();
    attrs.description = Some(s("plain-description"));
    let phase = configure_phase(&attrs, None, false, false, "/d", &sample_platform());
    assert!(phase.contains("\nexport CARGO_PKG_DESCRIPTION=plain-description\n"));
    assert!(phase.contains("\nexport DEBUG=\nexport HOST="));
    assert!(phase.contains("\nexport OPT_LEVEL=0\nexport PROFILE=debug\n"));
    assert!(!phase.contains("OUT_DIR"));
    assert_eq!(join_authors(&Vec::new()), "");
}

#[test]
fn descriptions_for_build_rust_crate() {
    assert_eq!(escape_description("a \"b\"\nc"), "a \\\"b\\\" c");
    assert_eq!(escape_description(""), "");
}

#[test]
fn camel_case_and_renames() {
    let mut name = s("crate_renames");
    to_camel_case(&mut name);
    assert_eq!(name, "crateRenames");
    let mut name = s("extra_rustc_opts_for_build_rs");
    to_camel_case(&mut name);
    assert_eq!(name, "extraRustcOptsForBuildRs");
    let mut name = s("trailing_");
    to_camel_case(&mut name);
    assert_eq!(name, "trailing_");
    let mut name = s("a__b");
    to_camel_case(&mut name);
    assert_eq!(name, "a_b");
    let mut name = s("a_b_c");
    to_camel_case(&mut name);
    assert_eq!(name, "aBC");
    let mut name = s("x_é");
    to_camel_case(&mut name);
    assert_eq!(name, "xé");
    let mut name = s("lib_name");
    Rename::CamelCase.apply(&mut name);
    assert_eq!(name, "libName");
    Rename::Replace(s("type")).apply(&mut name);
    assert_eq!(name, "type");
}

#[test]
fn keys_made_fit_for_c() {
    let mut pairs = HashMapPairs::new();
    pairs.store_key("ab");
    assert_eq!(pairs.key_bytes(), b"ab\0");
    pairs.store_key("a\0b");
    assert_eq!(pairs.key_bytes(), &[b'a', 0xEF, 0xBF, 0xBD, b'b', 0][..]);
}

#[test]
fn namespaces() {
    let ns = Namespace::new(b"builtins".to_vec());
    assert_eq!(ns.display(), b"builtins");
    let pushed = ns.push(b"fetchGit");
    assert_eq!(pushed.display(), b"builtins.fetchGit");
    let deeper = pushed.push(b"url");
    assert_eq!(deeper.display(), b"builtins.fetchGit.url");
    let popped = deeper.pop();
    assert_eq!(popped.display(), b"builtins.fetchGit");
}

#[test]
fn pushing_then_popping_gives_the_namespace_back() {
    let ns = Namespace::new(b"pkgs".to_vec());
    assert_eq!(ns.len(), 1);
    let copy = ns.clone();
    let pushed = ns.push(b"stdenv");
    assert_eq!(pushed.len(), 2);
    assert_eq!(pushed.display(), [copy.display(), b".stdenv".to_vec()].concat());
    let popped = pushed.pop();
    assert_eq!(popped.display(), copy.display());
    assert_eq!(popped.len(), copy.len());
}

fn target(kind: TargetKind, name: &str, src: Option<&str>) -> TargetInfo {
    TargetInfo { kind, name: s(name), src_path: src.map(s), required_features: Vec::new() }
}

fn package(name: &str, deps: Vec<(usize, Dep)>, targets: Vec<TargetInfo>, build: Option<BuildSetting>) -> PackageInfo {
    PackageInfo {
        name: s(name),
        version: s("1.0.0"),
        root: format!("/src/{name}"),
        is_path_source: name == "app",
        targets,
        build,
        target_opts: no_opts(),
        host_opts: BuildOpts { codegen_units: Some(1), extra_rustc_args: Vec::new() },
        deps,
    }
}

fn lib_target(name: &str) -> TargetInfo {
    target(TargetKind::Lib(vec![CrateType::Lib]), name, Some(&format!("/src/{name}/src/lib.rs")))
}

#[test]
fn build_graph_orders_dependencies_first() {
    let ws = Workspace {
        packages: vec![
            package(
                "app",
                vec![(1, dep(DepKind::Normal, None, "util", "1")), (2, dep(DepKind::Build, None, "cc", "1")), (3, dep(DepKind::Development, None, "test", "1"))],
                vec![target(TargetKind::Bin, "app", Some("/src/app/src/main.rs")), lib_target("app")],
                Some(BuildSetting::Auto(true)),
            ),
            package("util", vec![(2, dep(DepKind::Normal, Some("cc2"), "cc", "1"))], vec![lib_target("util")], None),
            package("cc", vec![], vec![lib_target("cc")], None),
            package("test", vec![(0, dep(DepKind::Normal, None, "app", "1"))], vec![lib_target("test")], None),
        ],
        root: 0,
    };
    let graph = BuildGraph::new(&ws);
    let order: Vec<usize> = graph.nodes.iter().map(|n| n.package).collect();
    assert_eq!(order, vec![2, 1, 0]);
    assert_eq!(graph.edges[2].dependencies, vec![1]);
    assert_eq!(graph.edges[2].build_dependencies, vec![0]);
    assert_eq!(graph.edges[1].dependencies, vec![0]);
    assert!(graph.edges[0].dependencies.is_empty());
    let root = &graph.nodes[2];
    assert_eq!(root.binaries.len(), 1);
    assert_eq!(root.binaries[0].path, "src/main.rs");
    assert_eq!(root.build_script.as_ref().unwrap().path, "build.rs");
    assert_eq!(root.build_script.as_ref().unwrap().build_opts.codegen_units, Some(1));
    assert_eq!(root.package_src, Some(s("/src/app")));
    assert_eq!(root.library.as_ref().unwrap().path, "src/lib.rs");
    let util = &graph.nodes[1];
    assert!(util.binaries.is_empty());
    assert!(util.build_script.is_none());
    assert!(util.package_src.is_none());
    assert_eq!(simple_of(util.dependency_renames.get("cc")), Some(s("cc2")));
}

#[test]
fn crate_args_from_a_package() {
    let p = package(
        "my-crate",
        vec![(1, dep(DepKind::Normal, Some("s1"), "serde", "^1")), (2, dep(DepKind::Build, Some("b"), "cc", "1"))],
        vec![
            target(TargetKind::Lib(vec![CrateType::Lib, CrateType::Cdylib]), "my_crate", Some("/src/my-crate/src/lib.rs")),
            target(TargetKind::Bin, "tool", Some("/src/my-crate/src/bin/tool.rs")),
        ],
        Some(BuildSetting::SingleScript(s("build/main.rs"))),
    );
    let args = BuildCrateArgs::new(&p, &sample_attrs(), true, &strings(&["default"]), &strings(&["-Copt"]), Some(4));
    assert_eq!(args.crate_name, "my-crate");
    assert_eq!(args.source_id().dir_name(), "my-crate-1.0.0");
    assert_eq!(args.build, Some(s("build/main.rs")));
    assert_eq!(args.lib_crate_types, strings(&["cdylib"]));
    assert_eq!(args.lib_name, Some(s("my_crate")));
    assert_eq!(args.lib_path, None);
    assert_eq!(args.crate_bin.len(), 1);
    assert_eq!(args.crate_bin[0].path, "src/bin/tool.rs");
    assert_eq!(args.description, Some(s("It's a \\\"test\\\"")));
    assert_eq!(args.edition, Some(s("2021")));
    assert_eq!(args.extra_rustc_opts, strings(&["-Copt"]));
    assert!(!args.proc_macro);
    assert_eq!(args.crate_renames.entries().len(), 2);
    assert_eq!(args.codegen_units, Some(4));
    let not_root = BuildCrateArgs::new(&p, &sample_attrs(), false, &Vec::new(), &Vec::new(), None);
    assert!(not_root.crate_bin.is_empty());
    assert_eq!(strip_root("/a/b/src/x.rs", "/a/b"), "src/x.rs");
}

#[test]
fn library_derivation_arguments() {
    let lib = BuildLibArgs {
        codegen_units: None,
        crate_renames: dependency_renames(&vec![dep(DepKind::Normal, Some("old"), "rand", "0.7.3"), dep(DepKind::Normal, Some("new"), "rand", "0.8.5")], DepFilter::Normal),
        edition: Edition::Edition2018,
        extra_rustc_args: Vec::new(),
        features: strings(&["std"]),
        is_proc_macro: false,
        lib_name: s("mylib"),
        lib_path: s("src/lib.rs"),
        package_name: s("mylib"),
        version: s("0.1.0"),
    };
    let deps = vec![DepLib { is_proc_macro: false, lib_name: s("rand"), package_name: s("rand"), version: s("0.8.5"), out_path: s("/o") }];
    let args = lib.rustc_args(false, &deps, Some("wasm32-unknown-unknown"), "so");
    assert_eq!(
        args,
        strings(&[
            "src/lib.rs",
            "--crate-name",
            "mylib",
            "--crate-type lib",
            "--out-dir",
            "target/lib",
            "--edition",
            "2018",
            "--cap-lints allow",
            "--remap-path-prefix=$NIX_BUILD_TOP=/",
            "--color always",
            "-C",
            "debuginfo=2",
            "-C",
            "codegen-units=1",
            "--extern",
            "new=/o/librand.rlib",
            "--target",
            "wasm32-unknown-unknown",
            "--cfg",
            "feature=\\\"std\\\"",
        ])
    );
    assert_eq!(lib.derivation_name(), "mylib-0.1.0-lib");
    assert_eq!(lib.install_phase(), "runHook preInstall\nmkdir -p $lib/lib\ncp -r target/lib/* $lib/lib\nrunHook postInstall\n");
    let phase = lib.build_phase(true, &Vec::new(), None, "so");
    assert!(phase.starts_with("runHook preBuild\nrustc src/lib.rs --crate-name mylib --crate-type lib"));
    assert!(phase.ends_with(" --cfg feature=\\\"std\\\"\nrunHook postBuild\n"));
    let deps = vec![DepLib { is_proc_macro: true, lib_name: s("m"), package_name: s("m"), version: s("1.0.0"), out_path: s("/p") }];
    assert_eq!(lib.dependencies_args(&deps, "dylib"), strings(&["--extern", "m=/p/libm.dylib"]));
}

#[test]
fn rename_versions_can_be_built_by_hand() {
    let renames = DependencyRenames::from_entries(vec![(
        s("log"),
        DependencyRename::Extended(vec![RenameWithVersion { rename: s("log03"), version_req: s("=0.3.9") }]),
    )]);
    assert_eq!(lib_name_for_dep(&renames, "log", "0.3.9", "log"), "log03");
    assert_eq!(lib_name_for_dep(&renames, "log", "0.4.0", "log"), "log");
}

#[test]
fn planning_the_build_of_a_package() {
    let ws = Workspace {
        packages: vec![
            package(
                "app",
                vec![(1, dep(DepKind::Normal, None, "util", "1")), (2, dep(DepKind::Build, None, "cc", "1"))],
                vec![target(TargetKind::Bin, "app", Some("/src/app/src/main.rs")), lib_target("app")],
                Some(BuildSetting::Auto(true)),
            ),
            package("util", vec![], vec![lib_target("util")], None),
            package("cc", vec![], vec![lib_target("cc")], None),
        ],
        root: 0,
    };
    let graph = BuildGraph::new(&ws);
    let root = graph.num_nodes() - 1;
    let plan = plan_node(&graph, root);
    assert_eq!(plan.src_path, "/src/app");
    assert_eq!(plan.src_name, Some(s("app")));
    assert!(plan.build_script && plan.library && plan.binaries);
    assert_eq!(plan.build_deps, graph.edges[root].build_dependencies);
    assert_eq!(plan.normal_deps, graph.edges[root].dependencies);
    assert_eq!(package_library(&graph), Some(root));

    let bin_only = Workspace {
        packages: vec![
            package(
                "app",
                vec![(1, dep(DepKind::Normal, None, "util", "1"))],
                vec![target(TargetKind::Bin, "app", Some("/src/app/src/main.rs"))],
                None,
            ),
            package("util", vec![], vec![lib_target("util")], None),
        ],
        root: 0,
    };
    let graph = BuildGraph::new(&bin_only);
    let plan = plan_node(&graph, 1);
    assert!(!plan.library && plan.binaries && !plan.build_script);
    assert_eq!(package_library(&graph), Some(0));
}

#[test]
fn paths_join_as_on_unix() {
    assert_eq!(join_path("/nix/store/vendor", "serde-1.0.0"), "/nix/store/vendor/serde-1.0.0");
    assert_eq!(join_path("/nix/store/vendor/", "serde-1.0.0"), "/nix/store/vendor/serde-1.0.0");
    assert_eq!(join_path("/a", "/b"), "/b");
    assert_eq!(join_path("", "b"), "b");
    assert_eq!(join_path("/a", ""), "/a/");
    assert_eq!(join_path("/ws", &strip_root("/ws/crates/util", "/ws")), "/ws/crates/util");
}

#[test]
fn sources_of_crates() {
    let app = package("app", vec![], vec![lib_target("app")], None);
    let member = package("util", vec![], vec![lib_target("util")], None);
    let member = PackageInfo { is_path_source: true, root: s("/ws/crates/util"), ..member };
    let dep = package("serde", vec![], vec![lib_target("serde")], None);

    let args = RequiredBuildCrateArgs::new(&member, "/ws", "/vendor");
    assert_eq!(args.crate_name, "util");
    assert_eq!(args.version, "1.0.0");
    match args.src_value() {
        CrateSrcValue::CopiedPath { path, name } => {
            assert_eq!(path, "/ws/crates/util");
            assert_eq!(name, Some(s("util")));
        },
        CrateSrcValue::Path(_) => panic!("a workspace member is copied"),
    }

    let root = PackageInfo { root: s("/ws"), ..app };
    match CrateSource::new(&root, "/ws", "/vendor") {
        CrateSource::Workspace { workspace_root, path_in_workspace } => {
            assert_eq!(workspace_root, "/ws");
            assert_eq!(path_in_workspace, "");
        },
        CrateSource::Vendored { .. } => panic!("the root package is in the workspace"),
    }
    match RequiredBuildCrateArgs::new(&root, "/ws", "/vendor").src_value() {
        CrateSrcValue::CopiedPath { path, name } => {
            assert_eq!(path, "/ws/");
            assert_eq!(name, None);
        },
        CrateSrcValue::Path(_) => panic!("the root package is copied"),
    }

    match RequiredBuildCrateArgs::new(&dep, "/ws", "/vendor").src_value() {
        CrateSrcValue::Path(p) => assert_eq!(p, "/vendor/serde-1.0.0"),
        CrateSrcValue::CopiedPath { .. } => panic!("a dependency is vendored"),
    }
}

#[test]
fn optional_crate_args_from_the_manifest() {
    let attrs = sample_attrs();
    let id = attrs.source_id();
    assert_eq!((id.package_name.as_str(), id.version.as_str()), ("foo", "1.2.3-beta.1"));
    assert_eq!(id.dir_name(), "foo-1.2.3-beta.1");
    let inner = OptionalBuildCrateArgsInner::new(&attrs, &strings(&["default", "std"]));
    assert_eq!(inner.authors, attrs.authors);
    assert_eq!(inner.description, Some(s("It's a \"test\"")));
    assert_eq!(inner.edition, Some(s("2021")));
    assert_eq!(inner.features, strings(&["default", "std"]));
    assert_eq!(inner.links, Some(s("z")));
    assert_eq!(inner.repository, Some(s("https://example.org/foo")));
    assert!(inner.homepage.is_none() && inner.build.is_none() && inner.lib_name.is_none());
    assert!(inner.crate_types.is_empty() && inner.extra_rustc_opts.is_empty());

    let args = OptionalBuildCrateArgs { inner, dependencies: Dependencies { normal: vec![1u32, 2], build: vec![3u32] } };
    let mapped = args.map_deps(|d: u32| d * 10);
    assert_eq!(mapped.dependencies.normal, vec![10, 20]);
    assert_eq!(mapped.dependencies.build, vec![30]);
    assert_eq!(mapped.inner.features, strings(&["default", "std"]));
}

#[test]
fn gathering_the_dependencies_of_a_crate() {
    let phase = deps_install_phase(&strings(&["/nix/store/a-serde"]), &strings(&["/nix/store/z-zlib"]), "so");
    let expected = "runHook preInstall\nmkdir -p $out\nmkdir -p $out/native\nshopt -s nullglob\n\
cp -rn /nix/store/a-serde/deps/native/. $out/native\ncp -rn /nix/store/a-serde/deps/. $out\n\n\
for dep in /nix/store/a-serde/lib*.{rlib,so}; do\n  ln -sf $dep $out\ndone\n\
if [ -d \"/nix/store/z-zlib/lib\" ]; then\n  for dep in \"/nix/store/z-zlib/lib\"/lib*.{so,so.*,dylib,a}; do\n    ln -sf $dep $out/native\n  done\nfi\n\n\
# Only check lib64/ if it's not a symlink. If it is it'll point\n# to lib/, so we can skip it.\n\
if [ -d \"/nix/store/z-zlib/lib64\" ] && [ ! -L \"/nix/store/z-zlib/lib64\" ]; then\n  for dep in \"/nix/store/z-zlib/lib64\"/lib*.{so,so.*,dylib,a}; do\n    ln -sf $dep $out/native\n  done\nfi\n\
runHook postInstall";
    assert_eq!(phase, expected);
    assert_eq!(
        deps_install_phase(&vec![], &vec![], "dylib"),
        "runHook preInstall\nmkdir -p $out\nmkdir -p $out/native\nshopt -s nullglob\nrunHook postInstall"
    );
    assert_eq!(deps_derivation_name("serde", "1.0.0"), "serde-1.0.0-deps");
}
