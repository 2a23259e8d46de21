//! A parser for the subset of the `Cargo.lock` format that is needed to
//! vendor the dependencies of a package.

use vstd::prelude::*;

use crate::text::{
    chars_of, find_from, find_from_exec, index_of, index_of_exec, is_first_occurrence, lemma_occurs_single,
    occurs_at, occurs_at_exec, push_str, string_from_range, vec_eq_str, vec_range,
};

verus! {

/// The URL of the crates.io index when accessed through the git protocol.
pub const CRATES_IO_REGISTRY_URL: &'static str = "https://github.com/rust-lang/crates.io-index";

/// The URL of the crates.io index when accessed through the sparse protocol.
pub const CRATES_IO_SPARSE_URL: &'static str = "https://index.crates.io/";

/// The protocol used to access a registry index.
#[derive(Clone, Copy, Debug, PartialEq, Eq, Structural)]
pub enum RegistryProtocol {
    /// Git-based index protocol.
    Registry,
    /// HTTP-based sparse index protocol.
    Sparse,
}

/// Which registry a package comes from.
#[derive(Clone, Debug, PartialEq, Eq)]
pub enum RegistryKind {
    /// crates.io, whose crates are always downloaded from its static host.
    CratesIo,
    /// Any other registry, identified by its protocol and index URL.
    Other { protocol: RegistryProtocol, url: String },
}

/// A package that comes from a registry.
#[derive(Clone, Debug, PartialEq, Eq)]
pub struct RegistrySource {
    pub checksum: String,
    pub kind: RegistryKind,
}

/// The git reference a git dependency was pinned with. Branches, tags and
/// revisions are mutually exclusive.
#[derive(Clone, Debug, PartialEq, Eq)]
pub enum GitSourceRef {
    Branch(String),
    Tag(String),
    Rev(String),
}

/// A package that comes from a git repository.
#[derive(Clone, Debug, PartialEq, Eq)]
pub struct GitSource {
    pub url: String,
    pub rev: String,
    pub git_ref: Option<GitSourceRef>,
}

/// Where a package comes from.
#[derive(Clone, Debug, PartialEq, Eq)]
pub enum PackageSource {
    Registry(RegistrySource),
    Git(GitSource),
}

/// A `[[package]]` entry of a `Cargo.lock` file. Path dependencies have no
/// source.
#[derive(Clone, Debug, PartialEq, Eq)]
pub struct PackageEntry {
    pub name: String,
    pub version: String,
    pub source: Option<PackageSource>,
}

/// The fields of a `[[package]]` entry that errors can name.
#[derive(Clone, Copy, Debug, PartialEq, Eq, Structural)]
pub enum LockField {
    /// The `[[package]]` header.
    Package,
    Name,
    Version,
    Source,
    Checksum,
}

/// The errors that can occur when parsing the contents of a `Cargo.lock`.
#[derive(Clone, Debug, PartialEq, Eq)]
pub enum CargoLockParseError {
    InvalidSourceProtocol { protocol: String },
    InvalidGitSourceRefKey { key: String },
    MissingClosingQuote { field_name: LockField },
    MissingField { field_name: LockField, after: LockField },
    MissingGitRevision { source: String },
    MissingSourceProtocol { source: String },
}

// ---------------------------------------------------------------------------
// Mathematical views.

pub enum SpecRegistryKind {
    CratesIo,
    Other { protocol: RegistryProtocol, url: Seq<char> },
}

pub struct SpecRegistrySource {
    pub checksum: Seq<char>,
    pub kind: SpecRegistryKind,
}

pub enum SpecGitRef {
    Branch(Seq<char>),
    Tag(Seq<char>),
    Rev(Seq<char>),
}

pub struct SpecGitSource {
    pub url: Seq<char>,
    pub rev: Seq<char>,
    pub git_ref: Option<SpecGitRef>,
}

pub enum SpecPackageSource {
    Registry(SpecRegistrySource),
    Git(SpecGitSource),
}

pub struct SpecPackageEntry {
    pub name: Seq<char>,
    pub version: Seq<char>,
    pub source: Option<SpecPackageSource>,
}

pub enum SpecLockError {
    InvalidSourceProtocol { protocol: Seq<char> },
    InvalidGitSourceRefKey { key: Seq<char> },
    MissingClosingQuote { field_name: LockField },
    MissingField { field_name: LockField, after: LockField },
    MissingGitRevision { source: Seq<char> },
    MissingSourceProtocol { source: Seq<char> },
}

impl View for RegistryKind {
    type V = SpecRegistryKind;

    open spec fn view(&self) -> SpecRegistryKind {
        match self {
            RegistryKind::CratesIo => SpecRegistryKind::CratesIo,
            RegistryKind::Other { protocol, url } => SpecRegistryKind::Other {
                protocol: *protocol,
                url: url@,
            },
        }
    }
}

impl View for RegistrySource {
    type V = SpecRegistrySource;

    open spec fn view(&self) -> SpecRegistrySource {
        SpecRegistrySource { checksum: self.checksum@, kind: self.kind@ }
    }
}

impl View for GitSourceRef {
    type V = SpecGitRef;

    open spec fn view(&self) -> SpecGitRef {
        match self {
            GitSourceRef::Branch(s) => SpecGitRef::Branch(s@),
            GitSourceRef::Tag(s) => SpecGitRef::Tag(s@),
            GitSourceRef::Rev(s) => SpecGitRef::Rev(s@),
        }
    }
}

/// The view of an optional git reference.
pub open spec fn git_ref_view(r: Option<GitSourceRef>) -> Option<SpecGitRef> {
    match r {
        Some(r) => Some(r@),
        None => None,
    }
}

impl View for GitSource {
    type V = SpecGitSource;

    open spec fn view(&self) -> SpecGitSource {
        SpecGitSource { url: self.url@, rev: self.rev@, git_ref: git_ref_view(self.git_ref) }
    }
}

impl View for PackageSource {
    type V = SpecPackageSource;

    open spec fn view(&self) -> SpecPackageSource {
        match self {
            PackageSource::Registry(r) => SpecPackageSource::Registry(r@),
            PackageSource::Git(g) => SpecPackageSource::Git(g@),
        }
    }
}

/// The view of an optional package source.
pub open spec fn source_view(s: Option<PackageSource>) -> Option<SpecPackageSource> {
    match s {
        Some(s) => Some(s@),
        None => None,
    }
}

impl View for PackageEntry {
    type V = SpecPackageEntry;

    open spec fn view(&self) -> SpecPackageEntry {
        SpecPackageEntry { name: self.name@, version: self.version@, source: source_view(self.source) }
    }
}

impl View for CargoLockParseError {
    type V = SpecLockError;

    open spec fn view(&self) -> SpecLockError {
        match self {
            CargoLockParseError::InvalidSourceProtocol { protocol } => SpecLockError::InvalidSourceProtocol {
                protocol: protocol@,
            },
            CargoLockParseError::InvalidGitSourceRefKey { key } => SpecLockError::InvalidGitSourceRefKey {
                key: key@,
            },
            CargoLockParseError::MissingClosingQuote { field_name } => SpecLockError::MissingClosingQuote {
                field_name: *field_name,
            },
            CargoLockParseError::MissingField { field_name, after } => SpecLockError::MissingField {
                field_name: *field_name,
                after: *after,
            },
            CargoLockParseError::MissingGitRevision { source } => SpecLockError::MissingGitRevision {
                source: source@,
            },
            CargoLockParseError::MissingSourceProtocol { source } => SpecLockError::MissingSourceProtocol {
                source: source@,
            },
        }
    }
}

/// The view of a parse result.
pub open spec fn parse_result_view<T: View>(r: Result<T, CargoLockParseError>) -> Result<T::V, SpecLockError> {
    match r {
        Ok(t) => Ok(t@),
        Err(e) => Err(e@),
    }
}

// ---------------------------------------------------------------------------
// Sources.

/// A git source written `<url>[?<key>=<value>]#<revision>`.
pub open spec fn spec_git_source(s: Seq<char>) -> Result<SpecGitSource, SpecLockError> {
    match index_of(s, '#') {
        None => Err(SpecLockError::MissingGitRevision { source: s }),
        Some(hash) => {
            let url_with_query = s.take(hash);
            let rev = s.skip(hash + 1);
            let url = match index_of(url_with_query, '?') {
                Some(q) => url_with_query.take(q),
                None => url_with_query,
            };
            let query = match index_of(url_with_query, '?') {
                Some(q) => url_with_query.skip(q + 1),
                None => Seq::<char>::empty(),
            };
            match index_of(query, '=') {
                None => Ok(SpecGitSource { url, rev, git_ref: None }),
                Some(eq) => {
                    let key = query.take(eq);
                    let value = query.skip(eq + 1);
                    if key == "branch"@ {
                        Ok(SpecGitSource { url, rev, git_ref: Some(SpecGitRef::Branch(value)) })
                    } else if key == "tag"@ {
                        Ok(SpecGitSource { url, rev, git_ref: Some(SpecGitRef::Tag(value)) })
                    } else if key == "rev"@ {
                        Ok(SpecGitSource { url, rev, git_ref: Some(SpecGitRef::Rev(value)) })
                    } else {
                        Err(SpecLockError::InvalidGitSourceRefKey { key })
                    }
                },
            }
        },
    }
}

/// A package source written `<protocol>+<url>`. The checksum of a registry
/// source is left empty.
pub open spec fn spec_package_source(s: Seq<char>) -> Result<SpecPackageSource, SpecLockError> {
    match index_of(s, '+') {
        None => Err(SpecLockError::MissingSourceProtocol { source: s }),
        Some(plus) => {
            let protocol = s.take(plus);
            let url = s.skip(plus + 1);
            if protocol == "registry"@ {
                Ok(
                    SpecPackageSource::Registry(
                        SpecRegistrySource {
                            checksum: Seq::empty(),
                            kind: if url == CRATES_IO_REGISTRY_URL@ {
                                SpecRegistryKind::CratesIo
                            } else {
                                SpecRegistryKind::Other { protocol: RegistryProtocol::Registry, url }
                            },
                        },
                    ),
                )
            } else if protocol == "sparse"@ {
                Ok(
                    SpecPackageSource::Registry(
                        SpecRegistrySource {
                            checksum: Seq::empty(),
                            kind: if url == CRATES_IO_SPARSE_URL@ {
                                SpecRegistryKind::CratesIo
                            } else {
                                SpecRegistryKind::Other { protocol: RegistryProtocol::Sparse, url }
                            },
                        },
                    ),
                )
            } else if protocol == "git"@ {
                match spec_git_source(url) {
                    Ok(g) => Ok(SpecPackageSource::Git(g)),
                    Err(e) => Err(e),
                }
            } else {
                Err(SpecLockError::InvalidSourceProtocol { protocol })
            }
        },
    }
}

impl GitSource {
    /// Parses a git source of the form `<url>[?<key>=<value>]#<revision>`.
    pub fn try_from(source: &str) -> (r: Result<GitSource, CargoLockParseError>)
        ensures
            parse_result_view(r) == spec_git_source(source@),
    {
        let chars = chars_of(source);
        Self::parse_chars(&chars)
    }

    fn parse_chars(s: &Vec<char>) -> (r: Result<GitSource, CargoLockParseError>)
        ensures
            parse_result_view(r) == spec_git_source(s@),
    {
        let n = s.len();
        assert(s@.subrange(0, s@.len() as int) =~= s@);
        let hash = match index_of_exec(s, '#') {
            Some(hash) => hash,
            None => {
                return Err(
                    CargoLockParseError::MissingGitRevision {
                        source: string_from_range(s, 0, s.len()),
                    },
                );
            },
        };
        let ghost s_view = s@;
        assert(hash < n);
        let url_with_query = vec_range(s, 0, hash);
        let rev = string_from_range(s, hash + 1, s.len());
        assert(url_with_query@ =~= s_view.take(hash as int));
        assert(rev@ =~= s_view.skip(hash + 1));
        let (url, query) = match index_of_exec(&url_with_query, '?') {
            Some(q) => {
                let url = string_from_range(&url_with_query, 0, q);
                let query = vec_range(&url_with_query, q + 1, url_with_query.len());
                assert(url@ =~= url_with_query@.take(q as int));
                assert(query@ =~= url_with_query@.skip(q + 1));
                (url, query)
            },
            None => {
                let url = string_from_range(&url_with_query, 0, url_with_query.len());
                assert(url@ =~= url_with_query@);
                (url, Vec::new())
            },
        };
        assert(query@ == (match index_of(url_with_query@, '?') {
            Some(q) => url_with_query@.skip(q + 1),
            None => Seq::<char>::empty(),
        }));
        let git_ref = match index_of_exec(&query, '=') {
            None => None,
            Some(eq) => {
                let key = vec_range(&query, 0, eq);
                let value = string_from_range(&query, eq + 1, query.len());
                assert(key@ =~= query@.take(eq as int));
                assert(value@ =~= query@.skip(eq + 1));
                if vec_eq_str(&key, "branch") {
                    Some(GitSourceRef::Branch(value))
                } else if vec_eq_str(&key, "tag") {
                    Some(GitSourceRef::Tag(value))
                } else if vec_eq_str(&key, "rev") {
                    Some(GitSourceRef::Rev(value))
                } else {
                    assert(key@.subrange(0, key@.len() as int) =~= key@);
                    return Err(
                        CargoLockParseError::InvalidGitSourceRefKey {
                            key: string_from_range(&key, 0, key.len()),
                        },
                    );
                }
            },
        };
        Ok(GitSource { url, rev, git_ref })
    }
}


impl PackageSource {
    /// Parses a package source of the form `<protocol>+<url>`. The checksum
    /// of a registry source is left empty: the caller sets it.
    pub fn parse(source: &str) -> (r: Result<PackageSource, CargoLockParseError>)
        ensures
            parse_result_view(r) == spec_package_source(source@),
    {
        let chars = chars_of(source);
        Self::parse_chars(&chars)
    }

    fn parse_chars(s: &Vec<char>) -> (r: Result<PackageSource, CargoLockParseError>)
        ensures
            parse_result_view(r) == spec_package_source(s@),
    {
        let n = s.len();
        assert(s@.subrange(0, s@.len() as int) =~= s@);
        let plus = match index_of_exec(s, '+') {
            Some(plus) => plus,
            None => {
                return Err(
                    CargoLockParseError::MissingSourceProtocol {
                        source: string_from_range(s, 0, n),
                    },
                );
            },
        };
        assert(plus < n);
        let protocol = vec_range(s, 0, plus);
        let url = vec_range(s, plus + 1, n);
        assert(protocol@ =~= s@.take(plus as int));
        assert(url@ =~= s@.skip(plus + 1));
        let url_string = string_from_range(&url, 0, url.len());
        assert(url@.subrange(0, url@.len() as int) =~= url@);
        if vec_eq_str(&protocol, "registry") {
            let kind = if vec_eq_str(&url, CRATES_IO_REGISTRY_URL) {
                RegistryKind::CratesIo
            } else {
                RegistryKind::Other { protocol: RegistryProtocol::Registry, url: url_string }
            };
            let checksum = String::new();
            Ok(PackageSource::Registry(RegistrySource { checksum, kind }))
        } else if vec_eq_str(&protocol, "sparse") {
            let kind = if vec_eq_str(&url, CRATES_IO_SPARSE_URL) {
                RegistryKind::CratesIo
            } else {
                RegistryKind::Other { protocol: RegistryProtocol::Sparse, url: url_string }
            };
            let checksum = String::new();
            Ok(PackageSource::Registry(RegistrySource { checksum, kind }))
        } else if vec_eq_str(&protocol, "git") {
            match GitSource::parse_chars(&url) {
                Ok(g) => Ok(PackageSource::Git(g)),
                Err(e) => Err(e),
            }
        } else {
            assert(protocol@.subrange(0, protocol@.len() as int) =~= protocol@);
            Err(
                CargoLockParseError::InvalidSourceProtocol {
                    protocol: string_from_range(&protocol, 0, protocol.len()),
                },
            )
        }
    }
}


// ---------------------------------------------------------------------------
// The parser.

/// Where the parser's cursor stands within the current `[[package]]` entry.
#[derive(Clone, Copy, Debug, PartialEq, Eq, Structural)]
pub enum CursorPosition {
    StartOfEntry,
    EndOfName,
    EndOfVersion,
    EndOfSource,
    EndOfChecksum,
    EndOfFile,
}

/// A simple parser for the subset of the `Cargo.lock` format that is needed
/// to vendor dependencies. It yields the `[[package]]` entries in order,
/// skipping those that are replaced by another entry.
pub struct CargoLockParser {
    /// The position in `src` the cursor is at.
    cursor_offset: usize,
    /// The semantic position of the cursor.
    cursor_position: CursorPosition,
    /// The characters of the `Cargo.lock` file.
    src: Vec<char>,
}

/// The state of a parser: the text, the cursor's offset and its position.
pub struct SpecParserState {
    pub src: Seq<char>,
    pub offset: int,
    pub position: CursorPosition,
}

impl View for CargoLockParser {
    type V = SpecParserState;

    closed spec fn view(&self) -> SpecParserState {
        SpecParserState {
            src: self.src@,
            offset: self.cursor_offset as int,
            position: self.cursor_position,
        }
    }
}

/// The outcome of one move of the cursor.
pub enum SpecStep {
    /// The cursor moved and parsing goes on with the entry parsed so far.
    Continue { offset: int, position: CursorPosition, entry: SpecPackageEntry },
    /// Parsing stops with a result.
    Done {
        result: Result<Option<SpecPackageEntry>, SpecLockError>,
        offset: int,
        position: CursorPosition,
    },
}

/// The entry every parse starts from.
pub open spec fn empty_entry() -> SpecPackageEntry {
    SpecPackageEntry { name: Seq::empty(), version: Seq::empty(), source: None }
}

/// The header that starts an entry, up to the name's opening quote.
pub open spec fn name_prefix() -> Seq<char> {
    "[[package]]\nname = \""@
}

/// The text between the name's closing quote and the version's opening quote.
pub open spec fn version_prefix() -> Seq<char> {
    "\nversion = \""@
}

/// The text between the version's closing quote and the source's opening quote.
pub open spec fn source_prefix() -> Seq<char> {
    "\nsource = \""@
}

/// The text between the source's closing quote and the checksum's opening quote.
pub open spec fn checksum_prefix() -> Seq<char> {
    "\nchecksum = \""@
}

/// The characters that start a new table.
pub open spec fn table_start() -> Seq<char> {
    "[["@
}

/// A double quote.
pub open spec fn quote() -> Seq<char> {
    seq!['"']
}

/// How far the cursor is from the end, for termination.
pub open spec fn chars_left(src: Seq<char>, offset: int) -> nat {
    if offset <= src.len() {
        (src.len() - offset) as nat
    } else {
        0
    }
}

/// The order in which the positions are visited within an entry.
pub open spec fn position_rank(p: CursorPosition) -> nat {
    match p {
        CursorPosition::StartOfEntry => 0,
        CursorPosition::EndOfName => 1,
        CursorPosition::EndOfVersion => 2,
        CursorPosition::EndOfSource => 3,
        CursorPosition::EndOfChecksum => 4,
        CursorPosition::EndOfFile => 5,
    }
}

/// A quoted field whose opening quote ends `prefix` at `offset`: the field
/// runs from after the prefix up to the next quote.
pub open spec fn spec_field(
    src: Seq<char>,
    offset: int,
    prefix: Seq<char>,
    field: LockField,
    after: LockField,
    position: CursorPosition,
    next: CursorPosition,
    entry: SpecPackageEntry,
) -> SpecStep {
    if !occurs_at(src, offset, prefix) {
        SpecStep::Done {
            result: Err(SpecLockError::MissingField { field_name: field, after }),
            offset,
            position,
        }
    } else {
        let start = offset + prefix.len();
        match find_from(src, start, quote()) {
            None => SpecStep::Done {
                result: Err(SpecLockError::MissingClosingQuote { field_name: field }),
                offset: start,
                position,
            },
            Some(end) => SpecStep::Continue {
                offset: end + 1,
                position: next,
                entry: with_field(entry, field, src.subrange(start, end)),
            },
        }
    }
}

/// `entry` with the given field set to `value`.
pub open spec fn with_field(entry: SpecPackageEntry, field: LockField, value: Seq<char>) -> SpecPackageEntry {
    match field {
        LockField::Name => SpecPackageEntry { name: value, ..entry },
        LockField::Version => SpecPackageEntry { version: value, ..entry },
        LockField::Checksum => match entry.source {
            Some(SpecPackageSource::Registry(r)) => SpecPackageEntry {
                source: Some(SpecPackageSource::Registry(SpecRegistrySource { checksum: value, ..r })),
                ..entry
            },
            _ => entry,
        },
        _ => entry,
    }
}

/// One move of the cursor from `offset` at `position`, with `entry` holding
/// the fields of the current entry parsed so far.
pub open spec fn spec_step(
    src: Seq<char>,
    offset: int,
    position: CursorPosition,
    entry: SpecPackageEntry,
) -> SpecStep {
    match position {
        CursorPosition::StartOfEntry => spec_field(
            src,
            offset,
            name_prefix(),
            LockField::Name,
            LockField::Package,
            position,
            CursorPosition::EndOfName,
            entry,
        ),
        CursorPosition::EndOfName => spec_field(
            src,
            offset,
            version_prefix(),
            LockField::Version,
            LockField::Name,
            position,
            CursorPosition::EndOfVersion,
            entry,
        ),
        CursorPosition::EndOfVersion => {
            if !occurs_at(src, offset, source_prefix()) {
                SpecStep::Continue {
                    offset,
                    position: CursorPosition::EndOfChecksum,
                    entry: SpecPackageEntry { source: None, ..entry },
                }
            } else {
                let start = offset + source_prefix().len();
                match find_from(src, start, quote()) {
                    None => SpecStep::Done {
                        result: Err(SpecLockError::MissingClosingQuote { field_name: LockField::Source }),
                        offset: start,
                        position,
                    },
                    Some(end) => match spec_package_source(src.subrange(start, end)) {
                        Err(e) => SpecStep::Done { result: Err(e), offset: start, position },
                        Ok(source) => SpecStep::Continue {
                            offset: end + 1,
                            position: CursorPosition::EndOfSource,
                            entry: SpecPackageEntry { source: Some(source), ..entry },
                        },
                    },
                }
            }
        },
        CursorPosition::EndOfSource => match entry.source {
            // A registry entry that is replaced has no checksum; it is
            // skipped.
            Some(SpecPackageSource::Registry(_)) => if !occurs_at(src, offset, checksum_prefix()) && occurs_at(
                src,
                offset,
                seq!['\n', 'r'],
            ) {
                SpecStep::Continue { offset, position: CursorPosition::EndOfChecksum, entry }
            } else {
                spec_field(
                    src,
                    offset,
                    checksum_prefix(),
                    LockField::Checksum,
                    LockField::Source,
                    position,
                    CursorPosition::EndOfChecksum,
                    entry,
                )
            },
            _ => SpecStep::Continue { offset, position: CursorPosition::EndOfChecksum, entry },
        },
        CursorPosition::EndOfChecksum => {
            if !occurs_at(src, offset, seq!['\n']) {
                SpecStep::Done { result: Ok(Some(entry)), offset, position: CursorPosition::EndOfFile }
            } else {
                let after = offset + 1;
                // An entry whose next field starts with 'r' is a `replace`d one.
                let skip = occurs_at(src, after, seq!['r']);
                let (next_offset, next_position) = match find_from(src, after, table_start()) {
                    Some(at) => (at, CursorPosition::StartOfEntry),
                    None => (after, CursorPosition::EndOfFile),
                };
                if skip {
                    SpecStep::Continue { offset: next_offset, position: next_position, entry }
                } else {
                    SpecStep::Done { result: Ok(Some(entry)), offset: next_offset, position: next_position }
                }
            }
        },
        CursorPosition::EndOfFile => SpecStep::Done { result: Ok(None), offset, position },
    }
}

/// Every move of the cursor that goes on either advances the cursor or moves
/// it to a later position within the entry.
pub proof fn lemma_step_progress(src: Seq<char>, offset: int, position: CursorPosition, entry: SpecPackageEntry)
    requires
        0 <= offset <= src.len(),
    ensures
        spec_step(src, offset, position, entry) matches SpecStep::Continue { offset: o, position: p, .. } ==> {
            &&& offset <= o <= src.len()
            &&& (offset < o || position_rank(position) < position_rank(p))
        },
        spec_step(src, offset, position, entry) matches SpecStep::Done { offset: o, .. } ==> 0 <= o <= src.len(),
{
    reveal_strlit("[[package]]\nname = \"");
    reveal_strlit("\nversion = \"");
    reveal_strlit("\nsource = \"");
    reveal_strlit("\nchecksum = \"");
    reveal_strlit("[[");
}

/// The result of parsing on from a state until an entry, the end or an error
/// is reached, with the state the parser is left in.
pub open spec fn spec_run(
    src: Seq<char>,
    offset: int,
    position: CursorPosition,
    entry: SpecPackageEntry,
) -> (Result<Option<SpecPackageEntry>, SpecLockError>, int, CursorPosition)
    decreases chars_left(src, offset), 5 - position_rank(position),
{
    if 0 <= offset <= src.len() {
        proof {
            lemma_step_progress(src, offset, position, entry);
        }
        match spec_step(src, offset, position, entry) {
            SpecStep::Continue { offset: o, position: p, entry: e } => spec_run(src, o, p, e),
            SpecStep::Done { result, offset: o, position: p } => (result, o, p),
        }
    } else {
        (Ok(None), offset, position)
    }
}

/// Parsing on from a state that gives an entry leaves the cursor further
/// on: later in the text, or at a later position at the same offset.
pub proof fn lemma_run_progress(src: Seq<char>, offset: int, position: CursorPosition, entry: SpecPackageEntry)
    requires
        0 <= offset <= src.len(),
    ensures
        ({
            let (result, o, p) = spec_run(src, offset, position, entry);
            result is Ok && result->Ok_0 is Some ==> {
                &&& offset <= o <= src.len()
                &&& (offset < o || position_rank(position) < position_rank(p))
            }
        }),
    decreases chars_left(src, offset), 5 - position_rank(position),
{
    reveal_strlit("[[");
    lemma_step_progress(src, offset, position, entry);
    match spec_step(src, offset, position, entry) {
        SpecStep::Continue { offset: o, position: p, entry: e } => {
            lemma_run_progress(src, o, p, e);
        },
        SpecStep::Done { .. } => {},
    }
}

/// The entries parsing yields from a state on, in order, until the end of
/// the file, and the error that stopped it, if one did.
pub open spec fn spec_entries_from(src: Seq<char>, offset: int, position: CursorPosition) -> (
    Seq<SpecPackageEntry>,
    Option<SpecLockError>,
)
    decreases chars_left(src, offset), 5 - position_rank(position),
{
    if 0 <= offset <= src.len() {
        proof {
            lemma_run_progress(src, offset, position, empty_entry());
        }
        let (result, o, p) = spec_run(src, offset, position, empty_entry());
        match result {
            Ok(None) => (Seq::empty(), None),
            Err(e) => (Seq::empty(), Some(e)),
            Ok(Some(e)) => {
                let rest = spec_entries_from(src, o, p);
                (seq![e] + rest.0, rest.1)
            },
        }
    } else {
        (Seq::empty(), None)
    }
}

/// The entries of the `Cargo.lock` text `src`, in order, that are not
/// replaced, and the error that stopped the parsing, if one did.
pub open spec fn spec_lock_file(src: Seq<char>) -> (Seq<SpecPackageEntry>, Option<SpecLockError>) {
    let (offset, position) = spec_initial_state(src);
    spec_entries_from(src, offset, position)
}

/// The state a new parser of `src` starts in: at the first `[[`, or at the
/// end when there is none.
pub open spec fn spec_initial_state(src: Seq<char>) -> (int, CursorPosition) {
    match find_from(src, 0, table_start()) {
        Some(at) => (at, CursorPosition::StartOfEntry),
        None => (0, CursorPosition::EndOfFile),
    }
}

/// The view of the result of one call of `next_inner`.
pub open spec fn next_result_view(r: Result<Option<PackageEntry>, CargoLockParseError>) -> Result<
    Option<SpecPackageEntry>,
    SpecLockError,
> {
    match r {
        Ok(Some(e)) => Ok(Some(e@)),
        Ok(None) => Ok(None),
        Err(e) => Err(e@),
    }
}

impl CargoLockParser {
    /// The parser's state is consistent: the cursor is within the text.
    pub closed spec fn wf(&self) -> bool {
        &&& self.cursor_offset <= self.src@.len()
        &&& self.src@.len() <= usize::MAX
    }

    /// A consistent parser's cursor lies within its text.
    pub proof fn lemma_offset_in_text(&self)
        requires
            self.wf(),
        ensures
            0 <= self@.offset <= self@.src.len(),
    {
    }

    /// Creates a parser over the contents of a `Cargo.lock` file.
    pub fn new(cargo_dot_lock: &str) -> (r: Self)
        ensures
            r.wf(),
            r@.src == cargo_dot_lock@,
            (r@.offset, r@.position) == spec_initial_state(cargo_dot_lock@),
    {
        let src = chars_of(cargo_dot_lock);
        let _len = src.len();
        let pat = chars_of("[[");
        proof {
            reveal_strlit("[[");
        }
        let (cursor_offset, cursor_position) = match find_from_exec(&src, 0, &pat) {
            Some(offset) => (offset, CursorPosition::StartOfEntry),
            None => (0, CursorPosition::EndOfFile),
        };
        CargoLockParser { cursor_offset, cursor_position, src }
    }

    /// The text after the cursor starts with `pat`.
    fn src_after_cursor_starts_with(&self, pat: &str) -> (r: bool)
        ensures
            r == occurs_at(self.src@, self.cursor_offset as int, pat@),
    {
        let p = chars_of(pat);
        occurs_at_exec(&self.src, self.cursor_offset, &p)
    }

    /// Searches for `needle` from the cursor on, returning the position of
    /// its first occurrence in the whole text.
    fn search_from_cursor(&self, needle: &str) -> (r: Option<usize>)
        requires
            self.wf(),
        ensures
            r == (match find_from(self.src@, self.cursor_offset as int, needle@) {
                Some(at) => Some(at as usize),
                None => None::<usize>,
            }),
            r matches Some(at) ==> is_first_occurrence(self.src@, self.cursor_offset as int, needle@, at as int),
    {
        let p = chars_of(needle);
        find_from_exec(&self.src, self.cursor_offset, &p)
    }
}


/// `source` with its registry checksum set to `checksum`; other sources are
/// left as they are.
fn with_checksum(source: Option<PackageSource>, checksum: String) -> (r: Option<PackageSource>)
    ensures
        source_view(r) == with_field(
            SpecPackageEntry { name: Seq::empty(), version: Seq::empty(), source: source_view(source) },
            LockField::Checksum,
            checksum@,
        ).source,
{
    match source {
        Some(PackageSource::Registry(r)) => Some(
            PackageSource::Registry(RegistrySource { checksum, kind: r.kind }),
        ),
        other => other,
    }
}

impl CargoLockParser {
    /// Reads the quoted field whose opening quote ends `prefix`, which must
    /// start at the cursor. On success the cursor ends up after the closing
    /// quote.
    fn read_field(&mut self, prefix: &str, field: LockField, after: LockField) -> (r: Result<
        String,
        CargoLockParseError,
    >)
        requires
            old(self).wf(),
        ensures
            final(self).wf(),
            final(self)@.src == old(self)@.src,
            final(self)@.position == old(self)@.position,
            ({
                let src = old(self)@.src;
                let offset = old(self)@.offset;
                if !occurs_at(src, offset, prefix@) {
                    &&& r matches Err(e) && e@ == (SpecLockError::MissingField { field_name: field, after })
                    &&& final(self)@.offset == offset
                } else {
                    let start = offset + prefix@.len();
                    match find_from(src, start, quote()) {
                        None => {
                            &&& r matches Err(e) && e@ == (SpecLockError::MissingClosingQuote { field_name: field })
                            &&& final(self)@.offset == start
                        },
                        Some(end) => {
                            &&& r matches Ok(v) && v@ == src.subrange(start, end)
                            &&& final(self)@.offset == end + 1
                        },
                    }
                }
            }),
    {
        let expected = chars_of(prefix);
        if !occurs_at_exec(&self.src, self.cursor_offset, &expected) {
            return Err(CargoLockParseError::MissingField { field_name: field, after });
        }
        self.cursor_offset = self.cursor_offset + expected.len();
        let start = self.cursor_offset;
        proof {
            reveal_strlit("\"");
            assert("\""@ =~= quote());
        }
        match self.search_from_cursor("\"") {
            None => Err(CargoLockParseError::MissingClosingQuote { field_name: field }),
            Some(end) => {
                let value = string_from_range(&self.src, start, end);
                self.cursor_offset = end + 1;
                Ok(value)
            },
        }
    }

    /// Parses on until the next entry that is not replaced, the end of the
    /// file or an error.
    pub fn next_inner(&mut self) -> (r: Result<Option<PackageEntry>, CargoLockParseError>)
        requires
            old(self).wf(),
        ensures
            final(self).wf(),
            final(self)@.src == old(self)@.src,
            ({
                let (result, offset, position) = spec_run(
                    old(self)@.src,
                    old(self)@.offset,
                    old(self)@.position,
                    empty_entry(),
                );
                &&& next_result_view(r) == result
                &&& final(self)@.offset == offset
                &&& final(self)@.position == position
            }),
    {
        let ghost goal = spec_run(self.src@, self.cursor_offset as int, self.cursor_position, empty_entry());
        let mut entry = PackageEntry { name: String::new(), version: String::new(), source: None };
        loop
            invariant_except_break
                spec_run(self@.src, self@.offset, self@.position, entry@) == goal,
            invariant
                self.wf(),
                self@.src == old(self)@.src,
                goal == spec_run(old(self)@.src, old(self)@.offset, old(self)@.position, empty_entry()),
            ensures
                goal == (Ok::<Option<SpecPackageEntry>, SpecLockError>(Some(entry@)), self@.offset, self@.position),
            decreases chars_left(self@.src, self@.offset), 5 - position_rank(self@.position),
        {
            let ghost (o0, p0, e0) = (self@.offset, self@.position, entry@);
            proof {
                lemma_step_progress(self@.src, o0, p0, e0);
            }
            proof {
                reveal_strlit("[[package]]\nname = \"");
                reveal_strlit("\nversion = \"");
                reveal_strlit("\nsource = \"");
                reveal_strlit("\nchecksum = \"");
                reveal_strlit("[[");
                reveal_strlit("\n");
                reveal_strlit("r");
                reveal_strlit("\nr");
                reveal_strlit("\"");
                assert("\""@ =~= quote());
                assert("\n"@ =~= seq!['\n']);
                assert("r"@ =~= seq!['r']);
                assert("\nr"@ =~= seq!['\n', 'r']);
            }
            match self.cursor_position {
                CursorPosition::StartOfEntry => {
                    let name = match self.read_field("[[package]]\nname = \"", LockField::Name, LockField::Package) {
                        Ok(name) => name,
                        Err(e) => {
                            assert(spec_run(self@.src, o0, p0, e0) == (Err::<Option<SpecPackageEntry>, SpecLockError>(e@), self@.offset, self@.position));
                            return Err(e);
                        },
                    };
                    entry.name = name;
                    self.cursor_position = CursorPosition::EndOfName;
                },
                CursorPosition::EndOfName => {
                    let version = self.read_field("\nversion = \"", LockField::Version, LockField::Name)?;
                    entry.version = version;
                    self.cursor_position = CursorPosition::EndOfVersion;
                },
                CursorPosition::EndOfVersion => {
                    let expected = chars_of("\nsource = \"");
                    if !occurs_at_exec(&self.src, self.cursor_offset, &expected) {
                        entry.source = None;
                        self.cursor_position = CursorPosition::EndOfChecksum;
                        continue;
                    }
                    self.cursor_offset = self.cursor_offset + expected.len();
                    let source_start = self.cursor_offset;
                    let source_end = match self.search_from_cursor("\"") {
                        Some(end) => end,
                        None => {
                            return Err(CargoLockParseError::MissingClosingQuote { field_name: LockField::Source });
                        },
                    };
                    let source = vec_range(&self.src, source_start, source_end);
                    let parsed = PackageSource::parse_chars(&source)?;
                    entry.source = Some(parsed);
                    self.cursor_offset = source_end + 1;
                    self.cursor_position = CursorPosition::EndOfSource;
                },
                CursorPosition::EndOfSource => {
                    let is_registry = match &entry.source {
                        Some(PackageSource::Registry(_)) => true,
                        _ => false,
                    };
                    if !is_registry {
                        self.cursor_position = CursorPosition::EndOfChecksum;
                        continue;
                    }
                    if !self.src_after_cursor_starts_with("\nchecksum = \"") && self.src_after_cursor_starts_with("\nr") {
                        self.cursor_position = CursorPosition::EndOfChecksum;
                        continue;
                    }
                    let checksum = self.read_field("\nchecksum = \"", LockField::Checksum, LockField::Source)?;
                    entry.source = with_checksum(entry.source, checksum);
                    self.cursor_position = CursorPosition::EndOfChecksum;
                },
                CursorPosition::EndOfChecksum => {
                    if !self.src_after_cursor_starts_with("\n") {
                        self.cursor_position = CursorPosition::EndOfFile;
                        break;
                    }
                    self.cursor_offset = self.cursor_offset + 1;
                    let skip_entry = self.src_after_cursor_starts_with("r");
                    match self.search_from_cursor("[[") {
                        Some(offset) => {
                            self.cursor_offset = offset;
                            self.cursor_position = CursorPosition::StartOfEntry;
                        },
                        None => {
                            self.cursor_position = CursorPosition::EndOfFile;
                        },
                    }
                    if !skip_entry {
                        break;
                    }
                },
                CursorPosition::EndOfFile => {
                    return Ok(None);
                },
            }
        }
        Ok(Some(entry))
    }
}


impl CargoLockParser {
    /// The next entry that is not replaced, an error, or `None` at the end.
    pub fn next(&mut self) -> (r: Option<Result<PackageEntry, CargoLockParseError>>)
        requires
            old(self).wf(),
        ensures
            final(self).wf(),
            final(self)@.src == old(self)@.src,
            ({
                let (result, offset, position) = spec_run(
                    old(self)@.src,
                    old(self)@.offset,
                    old(self)@.position,
                    empty_entry(),
                );
                &&& final(self)@.offset == offset
                &&& final(self)@.position == position
                &&& match result {
                    Ok(Some(e)) => r matches Some(Ok(entry)) && entry@ == e,
                    Ok(None) => r is None,
                    Err(e) => r matches Some(Err(err)) && err@ == e,
                }
            }),
    {
        match self.next_inner() {
            Ok(Some(entry)) => Some(Ok(entry)),
            Ok(None) => None,
            Err(e) => Some(Err(e)),
        }
    }
}

// ---------------------------------------------------------------------------
// Git references.

/// The value of a hexadecimal digit, if `b` is one.
pub open spec fn hex_digit_value(b: u8) -> Option<u8> {
    if 0x30 <= b <= 0x39 {
        Some((b - 0x30) as u8)
    } else if 0x61 <= b <= 0x66 {
        Some((b - 0x61 + 10) as u8)
    } else if 0x41 <= b <= 0x46 {
        Some((b - 0x41 + 10) as u8)
    } else {
        None
    }
}

/// Percent-decoding: every `%` followed by two hexadecimal digits stands for
/// the byte they spell; every other byte stands for itself.
pub open spec fn percent_decode_bytes(b: Seq<u8>) -> Seq<u8>
    decreases b.len(),
{
    if b.len() == 0 {
        Seq::empty()
    } else if b[0] == 0x25u8 && b.len() >= 3 && hex_digit_value(b[1]) is Some && hex_digit_value(b[2]) is Some {
        seq![(hex_digit_value(b[1])->0 * 16 + hex_digit_value(b[2])->0) as u8] + percent_decode_bytes(b.skip(3))
    } else {
        seq![b[0]] + percent_decode_bytes(b.skip(1))
    }
}

/// The UTF-8 encoding of the percent-decoding of `s` is valid.
pub open spec fn percent_decodes_to_utf8(s: Seq<char>) -> bool {
    vstd::utf8::valid_utf8(percent_decode_bytes(vstd::utf8::encode_utf8(s)))
}

/// The text `s` percent-decodes to.
pub open spec fn percent_decoded(s: Seq<char>) -> Seq<char> {
    vstd::utf8::decode_utf8(percent_decode_bytes(vstd::utf8::encode_utf8(s)))
}

/// Percent-decodes `s` and decodes the bytes as UTF-8
/// (`percent_encoding::percent_decode_str(s).decode_utf8()`). The result is
/// `None` exactly when the decoded bytes are not valid UTF-8.
#[verifier::external_body]
fn percent_decode_utf8(s: &str) -> (r: Option<String>)
    ensures
        r is Some <==> percent_decodes_to_utf8(s@),
        r matches Some(d) ==> d@ == percent_decoded(s@),
{
    match percent_encoding::percent_decode_str(s).decode_utf8() {
        Ok(decoded) => Some(decoded.into_owned()),
        Err(_) => None,
    }
}

/// The `ref` argument `builtins.fetchGit` is given for a git reference:
/// branches as they are, tags under `refs/tags/`, and revisions only when
/// they percent-decode to a full reference under `refs/`.
pub open spec fn spec_fetch_git_ref(r: SpecGitRef) -> Option<Seq<char>> {
    match r {
        SpecGitRef::Branch(b) => Some(b),
        SpecGitRef::Tag(t) => Some("refs/tags/"@ + t),
        SpecGitRef::Rev(rev) => {
            let decoded = percent_decoded(rev);
            if decoded.len() >= 5 && decoded.take(5) == "refs/"@ {
                Some(decoded)
            } else {
                None
            }
        },
    }
}

/// The key and value a git reference is written with in a source URL.
pub open spec fn spec_key_value(r: SpecGitRef) -> (Seq<char>, Seq<char>) {
    match r {
        SpecGitRef::Branch(b) => ("branch"@, b),
        SpecGitRef::Tag(t) => ("tag"@, t),
        SpecGitRef::Rev(rev) => ("rev"@, rev),
    }
}

/// Where `index_of` finds a character, the character is there.
proof fn lemma_index_of_found(s: Seq<char>, c: char)
    ensures
        index_of(s, c) matches Some(i) ==> 0 <= i < s.len() && s[i] == c,
{
    if let Some(i) = index_of(s, c) {
        assert(is_first_occurrence(s, 0, seq![c], i));
        lemma_occurs_single(s, i, c);
    }
}

/// A git source with a reference is written back as it was read: its URL,
/// `?`, the key and value of the reference, `#` and the revision. So the
/// key a reference is written with is the key it is read under (`branch`
/// for a branch, `tag` for a tag, `rev` for a revision), and the table of
/// the Cargo configuration entry that replaces the source is named after
/// the source's text before `#`.
pub proof fn lemma_git_source_written_back(s: Seq<char>, replace_with: Seq<char>)
    requires
        spec_git_source(s) matches Ok(g) && g.git_ref is Some,
    ensures
        ({
            let g = spec_git_source(s)->Ok_0;
            let (key, value) = spec_key_value(g.git_ref->0);
            &&& g.url + "?"@ + key + "="@ + value + "#"@ + g.rev == s
            &&& spec_config_entry(g, replace_with) == "[source.\""@ + s.take(index_of(s, '#')->0) + "\"]\n"@
                + "git = \""@ + g.url + "\"\n"@ + key + " = \""@ + value + "\"\n"@ + "replace-with = \""@
                + replace_with + "\"\n"@
        }),
{
    reveal_strlit("?");
    reveal_strlit("=");
    reveal_strlit("#");
    reveal_strlit("branch");
    reveal_strlit("tag");
    reveal_strlit("rev");
    let g = spec_git_source(s)->Ok_0;
    lemma_index_of_found(s, '#');
    let h = index_of(s, '#')->0;
    let u = s.take(h);
    lemma_index_of_found(u, '?');
    let q = index_of(u, '?')->0;
    let query = u.skip(q + 1);
    lemma_index_of_found(query, '=');
    let eq = index_of(query, '=')->0;
    let key = query.take(eq);
    let value = query.skip(eq + 1);
    assert(g.url == u.take(q));
    assert(g.rev == s.skip(h + 1));
    assert(spec_key_value(g.git_ref->0) == (key, value));
    assert(query =~= key + "="@ + value);
    assert(u =~= u.take(q) + "?"@ + query);
    assert(s =~= u + "#"@ + s.skip(h + 1));
    assert(g.url + "?"@ + key + "="@ + value =~= u);
    assert(g.url + "?"@ + key + "="@ + value + "#"@ + g.rev =~= s);
    assert(spec_config_entry(g, replace_with) =~= "[source.\""@ + u + "\"]\n"@ + "git = \""@ + g.url + "\"\n"@ + key
        + " = \""@ + value + "\"\n"@ + "replace-with = \""@ + replace_with + "\"\n"@);
}

impl GitSourceRef {
    /// The string to pass as the `ref` argument to `builtins.fetchGit`.
    pub fn format_for_fetch_git(&self) -> (r: Option<String>)
        requires
            self matches GitSourceRef::Rev(rev) ==> percent_decodes_to_utf8(rev@),
        ensures
            match r {
                Some(s) => spec_fetch_git_ref(self@) == Some(s@),
                None => spec_fetch_git_ref(self@) is None,
            },
    {
        match self {
            GitSourceRef::Branch(branch) => Some(branch.clone()),
            GitSourceRef::Tag(tag) => {
                let mut out = String::new();
                push_str(&mut out, "refs/tags/");
                push_str(&mut out, tag.as_str());
                Some(out)
            },
            GitSourceRef::Rev(rev) => {
                let decoded = match percent_decode_utf8(rev.as_str()) {
                    Some(d) => d,
                    None => {
                        return None;
                    },
                };
                let chars = chars_of(decoded.as_str());
                let prefix = chars_of("refs/");
                proof {
                    reveal_strlit("refs/");
                }
                if occurs_at_exec(&chars, 0, &prefix) {
                    assert(chars@.subrange(0, 5) =~= chars@.take(5));
                    Some(decoded)
                } else {
                    proof {
                        if chars@.len() >= 5 && chars@.take(5) == "refs/"@ {
                            assert(chars@.subrange(0, 5) =~= chars@.take(5));
                        }
                    }
                    None
                }
            },
        }
    }

    /// The key and value this reference is written with in a source URL.
    pub fn as_key_value(&self) -> (r: (&'static str, &str))
        ensures
            (r.0@, r.1@) == spec_key_value(self@),
    {
        proof {
            reveal_strlit("branch");
            reveal_strlit("tag");
            reveal_strlit("rev");
        }
        match self {
            GitSourceRef::Branch(branch) => ("branch", branch.as_str()),
            GitSourceRef::Tag(tag) => ("tag", tag.as_str()),
            GitSourceRef::Rev(rev) => ("rev", rev.as_str()),
        }
    }
}

/// The Cargo configuration entry that replaces the git source `g` with the
/// source named `replace_with`.
pub open spec fn spec_config_entry(g: SpecGitSource, replace_with: Seq<char>) -> Seq<char> {
    let query = match g.git_ref {
        Some(r) => "?"@ + spec_key_value(r).0 + "="@ + spec_key_value(r).1,
        None => Seq::empty(),
    };
    let ref_line = match g.git_ref {
        Some(r) => spec_key_value(r).0 + " = \""@ + spec_key_value(r).1 + "\"\n"@,
        None => Seq::empty(),
    };
    "[source.\""@ + g.url + query + "\"]\n"@ + "git = \""@ + g.url + "\"\n"@ + ref_line + "replace-with = \""@
        + replace_with + "\"\n"@
}

impl GitSource {
    /// Formats this source as a Cargo configuration entry that replaces it
    /// with the source named `replace_with`. The key of the `[source."..."]`
    /// table only has to be unique: it is made of the URL and the reference.
    pub fn into_cargo_config_entry(&self, replace_with: &str) -> (r: String)
        ensures
            r@ == spec_config_entry(self@, replace_with@),
    {
        let mut out = String::new();
        push_str(&mut out, "[source.\"");
        push_str(&mut out, self.url.as_str());
        match &self.git_ref {
            Some(git_ref) => {
                let (key, value) = git_ref.as_key_value();
                push_str(&mut out, "?");
                push_str(&mut out, key);
                push_str(&mut out, "=");
                push_str(&mut out, value);
            },
            None => {},
        }
        push_str(&mut out, "\"]\n");
        push_str(&mut out, "git = \"");
        push_str(&mut out, self.url.as_str());
        push_str(&mut out, "\"\n");
        match &self.git_ref {
            Some(git_ref) => {
                let (key, value) = git_ref.as_key_value();
                push_str(&mut out, key);
                push_str(&mut out, " = \"");
                push_str(&mut out, value);
                push_str(&mut out, "\"\n");
            },
            None => {},
        }
        push_str(&mut out, "replace-with = \"");
        push_str(&mut out, replace_with);
        push_str(&mut out, "\"\n");
        assert(out@ =~= spec_config_entry(self@, replace_with@));
        out
    }
}

} // verus!
