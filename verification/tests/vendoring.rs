use jettison::cargo_lock::{GitSource, GitSourceRef, PackageEntry, PackageSource, RegistryKind, RegistryProtocol, RegistrySource};
use jettison::lex::KeyOrder;
use jettison::value::{Context, Node};
use jettison::vendor::{Fetch, SourceId, VendoredSources, git_fetch, registry_fetch};

fn id(name: &str, version: &str) -> SourceId {
    SourceId { package_name: name.to_string(), version: version.to_string() }
}

#[test]
fn source_ids_order_by_name_then_version() {
    assert_eq!(id("a", "2.0.0").compare(&id("b", "1.0.0")), KeyOrder::Less);
    assert_eq!(id("b", "1.0.0").compare(&id("a", "2.0.0")), KeyOrder::Greater);
    assert_eq!(id("a", "1.0.0").compare(&id("a", "1.0.1")), KeyOrder::Less);
    assert_eq!(id("a", "1.0.0").compare(&id("a", "1.0.0")), KeyOrder::Equal);
    assert_eq!(id("serde", "1.0.0").dir_name(), "serde-1.0.0");
}

#[test]
fn vendored_sources_are_found_again() {
    let mut ctx = Context::new();
    let a = ctx.alloc_value(Node::Null);
    let b = ctx.alloc_value(Node::Null);
    let c = ctx.alloc_value(Node::Null);
    let mut sources = VendoredSources::new("vendored-sources");
    sources.push(id("anyhow", "1.0.0"), a);
    sources.push(id("serde", "0.8.0"), b);
    sources.push(id("serde", "1.0.0"), c);
    assert_eq!(sources.get(&id("anyhow", "1.0.0")), Some(a));
    assert_eq!(sources.get(&id("serde", "0.8.0")), Some(b));
    assert_eq!(sources.get(&id("serde", "1.0.0")), Some(c));
    assert_eq!(sources.get(&id("serde", "2.0.0")), None);
    assert_eq!(sources.get(&id("zzz", "1.0.0")), None);
}

#[test]
fn cargo_configuration() {
    let mut sources = VendoredSources::new("vendored-sources");
    assert_eq!(
        sources.config_dot_toml(),
        "[source.crates-io]\nreplace-with = \"vendored-sources\"\n\n[source.vendored-sources]\ndirectory = \".\"\n"
    );
    let git = GitSource {
        url: "https://github.com/a/b".to_string(),
        rev: "0123456789".to_string(),
        git_ref: Some(GitSourceRef::Tag("v1".to_string())),
    };
    sources.add_git_source(&git, "vendored-sources");
    assert!(sources.config_dot_toml().ends_with(
        "[source.\"https://github.com/a/b?tag=v1\"]\ngit = \"https://github.com/a/b\"\ntag = \"v1\"\nreplace-with = \"vendored-sources\"\n"
    ));
}

#[test]
fn what_to_fetch_from_crates_io() {
    let source = RegistrySource { checksum: "abc".to_string(), kind: RegistryKind::CratesIo };
    let fetch = registry_fetch(&source, "serde", "1.0.0");
    assert_eq!(fetch.name, "serde-1.0.0.tar.gz");
    assert_eq!(fetch.url, "https://static.crates.io/crates/serde/serde-1.0.0.crate");
    assert_eq!(fetch.sha256, "abc");
    assert_eq!(fetch.dir_name, "serde-1.0.0");
    let _ = RegistryProtocol::Sparse;
}

#[test]
fn what_to_fetch_from_git() {
    let branch = GitSource {
        url: "https://github.com/a/b".to_string(),
        rev: "0123456789abcdef".to_string(),
        git_ref: Some(GitSourceRef::Branch("main".to_string())),
    };
    let fetch = git_fetch(&branch);
    assert_eq!(fetch.url, "https://github.com/a/b");
    assert_eq!(fetch.rev, "0123456789abcdef");
    assert!(fetch.submodules);
    assert_eq!(fetch.git_ref, Some("main".to_string()));
    assert!(!fetch.all_refs);
    assert_eq!(fetch.name, "git-01234567");

    let rev = GitSource { git_ref: Some(GitSourceRef::Rev("abc".to_string())), ..branch.clone() };
    let fetch = git_fetch(&rev);
    assert_eq!(fetch.git_ref, None);
    assert!(fetch.all_refs);

    let full = GitSource { git_ref: Some(GitSourceRef::Rev("refs%2Fheads%2Fdev".to_string())), ..branch.clone() };
    assert_eq!(git_fetch(&full).git_ref, Some("refs/heads/dev".to_string()));

    let none = GitSource { git_ref: None, ..branch };
    let fetch = git_fetch(&none);
    assert_eq!(fetch.git_ref, None);
    assert!(fetch.all_refs);
}

#[test]
fn git_directory_is_named_after_the_first_eight_bytes() {
    let source = GitSource {
        url: "https://github.com/a/b".to_string(),
        rev: "é1234567890".to_string(),
        git_ref: None,
    };
    assert_eq!(git_fetch(&source).name, "git-é123456");
}

#[test]
fn planning_the_fetch_of_lock_entries() {
    let mut sources = VendoredSources::new("vendored-sources");
    let header = sources.config_dot_toml().to_string();

    let local = PackageEntry { name: "app".to_string(), version: "0.1.0".to_string(), source: None };
    assert!(sources.plan_fetch(&local, "vendored-sources").is_none());
    assert_eq!(sources.config_dot_toml(), header);

    let registry = PackageEntry {
        name: "serde".to_string(),
        version: "1.0.0".to_string(),
        source: Some(PackageSource::Registry(RegistrySource {
            checksum: "abc".to_string(),
            kind: RegistryKind::CratesIo,
        })),
    };
    match sources.plan_fetch(&registry, "vendored-sources") {
        Some(Fetch::Registry(f)) => {
            assert_eq!(f.url, "https://static.crates.io/crates/serde/serde-1.0.0.crate");
            assert_eq!(f.dir_name, "serde-1.0.0");
        },
        _ => panic!("expected a registry fetch"),
    }
    assert_eq!(sources.config_dot_toml(), header);

    let git = PackageEntry {
        name: "b".to_string(),
        version: "0.2.0".to_string(),
        source: Some(PackageSource::Git(GitSource {
            url: "https://github.com/a/b".to_string(),
            rev: "0123456789".to_string(),
            git_ref: None,
        })),
    };
    match sources.plan_fetch(&git, "vendored-sources") {
        Some(Fetch::Git(f)) => {
            assert_eq!(f.name, "git-01234567");
            assert!(f.all_refs);
        },
        _ => panic!("expected a git fetch"),
    }
    assert_eq!(
        sources.config_dot_toml(),
        format!(
            "{header}[source.\"https://github.com/a/b\"]\ngit = \"https://github.com/a/b\"\nreplace-with = \"vendored-sources\"\n"
        )
    );
}

#[test]
fn planning_the_vendoring_of_a_lock_file() {
    let lock = "version = 4\n\n[[package]]\nname = \"anyhow\"\nversion = \"1.0.98\"\nsource = \"registry+https://github.com/rust-lang/crates.io-index\"\nchecksum = \"abc\"\n\n[[package]]\nname = \"app\"\nversion = \"0.1.0\"\n\n[[package]]\nname = \"serde\"\nversion = \"0.8.0\"\nsource = \"git+https://github.com/serde-rs/serde?branch=v0.8#0123456789abcdef\"\n";
    let (sources, fetches) = jettison::vendor::plan_vendoring(lock, "vendored-sources").unwrap();
    assert_eq!(fetches.len(), 2);
    assert_eq!(fetches[0].0, id("anyhow", "1.0.98"));
    match &fetches[0].1 {
        Fetch::Registry(f) => assert_eq!(f.dir_name, "anyhow-1.0.98"),
        _ => panic!("expected a registry fetch"),
    }
    assert_eq!(fetches[1].0, id("serde", "0.8.0"));
    match &fetches[1].1 {
        Fetch::Git(f) => {
            assert_eq!(f.url, "https://github.com/serde-rs/serde");
            assert_eq!(f.rev, "0123456789abcdef");
        },
        _ => panic!("expected a git fetch"),
    }
    let empty = VendoredSources::new("vendored-sources");
    let config = sources.config_dot_toml();
    assert!(config.starts_with(empty.config_dot_toml()));
    assert!(config.len() > empty.config_dot_toml().len());
    assert!(sources.get(&id("anyhow", "1.0.98")).is_none());
}

#[test]
fn planning_stops_at_the_first_parse_error() {
    let lock = "[[package]]\nname = \"a\"\n";
    match jettison::vendor::plan_vendoring(lock, "vendored-sources") {
        Err(e) => assert_eq!(
            e,
            jettison::cargo_lock::CargoLockParseError::MissingField {
                field_name: jettison::cargo_lock::LockField::Version,
                after: jettison::cargo_lock::LockField::Name,
            }
        ),
        Ok(_) => panic!("expected a parse error"),
    }
}

#[test]
fn fetched_sources_are_found_by_their_ids() {
    let lock = "[[package]]\nname = \"anyhow\"\nversion = \"1.0.98\"\nsource = \"registry+https://github.com/rust-lang/crates.io-index\"\nchecksum = \"abc\"\n\n[[package]]\nname = \"app\"\nversion = \"0.1.0\"\n\n[[package]]\nname = \"serde\"\nversion = \"1.0.0\"\nsource = \"registry+https://github.com/rust-lang/crates.io-index\"\nchecksum = \"def\"\n";
    let (mut sources, fetches) = jettison::vendor::plan_vendoring(lock, "vendored-sources").unwrap();
    let mut ctx = Context::new();
    let anyhow = ctx.alloc_value(Node::Null);
    let serde = ctx.alloc_value(Node::Null);
    sources.add_fetched(fetches, vec![anyhow, serde]);
    assert_eq!(sources.get(&id("anyhow", "1.0.98")), Some(anyhow));
    assert_eq!(sources.get(&id("serde", "1.0.0")), Some(serde));
    assert_eq!(sources.get(&id("app", "0.1.0")), None);
}

#[test]
fn sources_in_version_order_are_found() {
    let lock = "[[package]]\nname = \"foo\"\nversion = \"0.9.0\"\nsource = \"registry+https://github.com/rust-lang/crates.io-index\"\nchecksum = \"a\"\n\n[[package]]\nname = \"foo\"\nversion = \"0.10.0\"\nsource = \"registry+https://github.com/rust-lang/crates.io-index\"\nchecksum = \"b\"\n";
    let (mut sources, fetches) = jettison::vendor::plan_vendoring(lock, "vendored-sources").unwrap();
    let mut ctx = Context::new();
    let old = ctx.alloc_value(Node::Null);
    let new = ctx.alloc_value(Node::Null);
    sources.add_fetched(fetches, vec![old, new]);
    assert_eq!(sources.get(&id("foo", "0.9.0")), Some(old));
    assert_eq!(sources.get(&id("foo", "0.10.0")), Some(new));
}

#[test]
fn a_source_pushed_twice_keeps_the_first_derivation() {
    let mut ctx = Context::new();
    let first = ctx.alloc_value(Node::Null);
    let second = ctx.alloc_value(Node::Null);
    let mut sources = VendoredSources::new("vendored-sources");
    sources.push(id("b", "1.0.0"), first);
    sources.push(id("a", "1.0.0"), second);
    sources.push(id("b", "1.0.0"), second);
    assert_eq!(sources.get(&id("b", "1.0.0")), Some(first));
    assert_eq!(sources.get(&id("a", "1.0.0")), Some(second));
}
