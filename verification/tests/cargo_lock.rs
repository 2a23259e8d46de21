use jettison::cargo_lock::{
    CargoLockParseError, CargoLockParser, GitSource, GitSourceRef, LockField, PackageEntry,
    PackageSource, RegistryKind, RegistryProtocol, RegistrySource,
};

#[test]
fn simple() {
    let source = "https://github.com/user/repo.git#abc123";
    let git_src = GitSource::try_from(source).unwrap();
    assert_eq!(git_src.url, "https://github.com/user/repo.git");
    assert_eq!(git_src.rev, "abc123");
    assert_eq!(git_src.git_ref, None);
}

#[test]
fn with_tag() {
    let source = "https://github.com/user/repo.git?tag=v1.0.0#abc123";
    let git_src = GitSource::try_from(source).unwrap();
    assert_eq!(git_src.url, "https://github.com/user/repo.git");
    assert_eq!(git_src.rev, "abc123");
    assert_eq!(git_src.git_ref, Some(GitSourceRef::Tag("v1.0.0".to_string())));
}

#[test]
fn with_branch() {
    let source = "https://github.com/user/repo.git?branch=main#abc123";
    let git_src = GitSource::try_from(source).unwrap();
    assert_eq!(git_src.url, "https://github.com/user/repo.git");
    assert_eq!(git_src.rev, "abc123");
    assert_eq!(git_src.git_ref, Some(GitSourceRef::Branch("main".to_string())));
}

#[test]
fn git_source_with_rev_query() {
    let git_src = GitSource::try_from("https://example.org/r.git?rev=deadbeef#deadbeef").unwrap();
    assert_eq!(git_src.git_ref, Some(GitSourceRef::Rev("deadbeef".to_string())));
}

#[test]
fn git_source_missing_revision() {
    let err = GitSource::try_from("https://example.org/r.git").unwrap_err();
    assert_eq!(
        err,
        CargoLockParseError::MissingGitRevision { source: "https://example.org/r.git".to_string() }
    );
}

#[test]
fn git_source_invalid_ref_key() {
    let err = GitSource::try_from("https://example.org/r.git?commit=1#1").unwrap_err();
    assert_eq!(err, CargoLockParseError::InvalidGitSourceRefKey { key: "commit".to_string() });
}

#[test]
fn package_source_crates_io_both_protocols() {
    let git = PackageSource::parse("registry+https://github.com/rust-lang/crates.io-index").unwrap();
    let sparse = PackageSource::parse("sparse+https://index.crates.io/").unwrap();
    let expected = PackageSource::Registry(RegistrySource {
        checksum: String::new(),
        kind: RegistryKind::CratesIo,
    });
    assert_eq!(git, expected);
    assert_eq!(sparse, expected);
}

#[test]
fn package_source_other_registry() {
    let src = PackageSource::parse("sparse+https://my.registry/index/").unwrap();
    assert_eq!(
        src,
        PackageSource::Registry(RegistrySource {
            checksum: String::new(),
            kind: RegistryKind::Other {
                protocol: RegistryProtocol::Sparse,
                url: "https://my.registry/index/".to_string(),
            },
        })
    );
}

#[test]
fn package_source_errors() {
    assert_eq!(
        PackageSource::parse("no-protocol").unwrap_err(),
        CargoLockParseError::MissingSourceProtocol { source: "no-protocol".to_string() }
    );
    assert_eq!(
        PackageSource::parse("svn+https://x").unwrap_err(),
        CargoLockParseError::InvalidSourceProtocol { protocol: "svn".to_string() }
    );
}

const LOCK: &str = r#"# This file is automatically @generated by Cargo.
# It is not intended for manual editing.
version = 4

[[package]]
name = "anyhow"
version = "1.0.98"
source = "registry+https://github.com/rust-lang/crates.io-index"
checksum = "e16d2d3311acee920a9eb8d33b8cbc1787ce4a264e85f964c2404b969bdcd487"

[[package]]
name = "mycrate"
version = "0.1.0"
dependencies = [
 "anyhow",
 "serde",
]

[[package]]
name = "serde"
version = "0.8.0"
source = "registry+https://github.com/rust-lang/crates.io-index"
replace = "serde 0.8.0"

[[package]]
name = "serde"
version = "0.8.0"
source = "git+https://github.com/serde-rs/serde?branch=v0.8#0123456789abcdef"
"#;

#[test]
fn parses_all_entries_skipping_replaced_ones() {
    let mut parser = CargoLockParser::new(LOCK);
    let mut entries: Vec<PackageEntry> = Vec::new();
    while let Some(res) = parser.next() {
        entries.push(res.unwrap());
    }
    assert_eq!(entries.len(), 3);
    assert_eq!(entries[0].name, "anyhow");
    assert_eq!(entries[0].version, "1.0.98");
    assert_eq!(
        entries[0].source,
        Some(PackageSource::Registry(RegistrySource {
            checksum: "e16d2d3311acee920a9eb8d33b8cbc1787ce4a264e85f964c2404b969bdcd487".to_string(),
            kind: RegistryKind::CratesIo,
        }))
    );
    assert_eq!(entries[1].name, "mycrate");
    assert_eq!(entries[1].source, None);
    assert_eq!(entries[2].name, "serde");
    assert_eq!(
        entries[2].source,
        Some(PackageSource::Git(GitSource {
            url: "https://github.com/serde-rs/serde".to_string(),
            rev: "0123456789abcdef".to_string(),
            git_ref: Some(GitSourceRef::Branch("v0.8".to_string())),
        }))
    );
}

#[test]
fn empty_lock_file_has_no_entries() {
    let mut parser = CargoLockParser::new("version = 4\n");
    assert!(parser.next().is_none());
}

#[test]
fn missing_checksum_is_an_error() {
    let lock = "[[package]]\nname = \"a\"\nversion = \"1.0.0\"\nsource = \"registry+https://github.com/rust-lang/crates.io-index\"\n";
    let mut parser = CargoLockParser::new(lock);
    assert_eq!(
        parser.next(),
        Some(Err(CargoLockParseError::MissingField {
            field_name: LockField::Checksum,
            after: LockField::Source,
        }))
    );
}

#[test]
fn missing_version_is_an_error() {
    let mut parser = CargoLockParser::new("[[package]]\nname = \"a\"\n");
    assert_eq!(
        parser.next(),
        Some(Err(CargoLockParseError::MissingField {
            field_name: LockField::Version,
            after: LockField::Name,
        }))
    );
}

#[test]
fn unclosed_name_is_an_error() {
    let mut parser = CargoLockParser::new("[[package]]\nname = \"abc");
    assert_eq!(
        parser.next(),
        Some(Err(CargoLockParseError::MissingClosingQuote { field_name: LockField::Name }))
    );
}

#[test]
fn other_table_first_is_an_error() {
    let mut parser = CargoLockParser::new("[[patch.unused]]\nname = \"a\"\n");
    assert_eq!(
        parser.next(),
        Some(Err(CargoLockParseError::MissingField {
            field_name: LockField::Name,
            after: LockField::Package,
        }))
    );
}

#[test]
fn fetch_git_refs() {
    assert_eq!(GitSourceRef::Branch("main".into()).format_for_fetch_git(), Some("main".to_string()));
    assert_eq!(GitSourceRef::Tag("v1".into()).format_for_fetch_git(), Some("refs/tags/v1".to_string()));
    assert_eq!(GitSourceRef::Rev("abc".into()).format_for_fetch_git(), None);
    assert_eq!(
        GitSourceRef::Rev("refs%2Fheads%2Fmain".into()).format_for_fetch_git(),
        Some("refs/heads/main".to_string())
    );
}

#[test]
fn cargo_config_entry_for_git_source() {
    let src = GitSource::try_from("https://github.com/a/b?tag=v2#abc").unwrap();
    assert_eq!(
        src.into_cargo_config_entry("vendored-sources"),
        "[source.\"https://github.com/a/b?tag=v2\"]\ngit = \"https://github.com/a/b\"\ntag = \"v2\"\nreplace-with = \"vendored-sources\"\n"
    );
    let plain = GitSource::try_from("https://github.com/a/b#abc").unwrap();
    assert_eq!(
        plain.into_cargo_config_entry("v"),
        "[source.\"https://github.com/a/b\"]\ngit = \"https://github.com/a/b\"\nreplace-with = \"v\"\n"
    );
}
