//! Vendoring the dependencies of a package: what to fetch for each package
//! of its `Cargo.lock`, the Cargo configuration that points Cargo at the
//! vendored sources, and finding the source of a package again.

use vstd::prelude::*;

use vstd::string::StringSliceAdditionalSpecFns;
use vstd::utf8::{decode_utf8, is_char_boundary};

use crate::cargo_lock::{
    CargoLockParseError, CargoLockParser, CursorPosition, SpecPackageEntry, chars_left, empty_entry, lemma_run_progress,
    position_rank, spec_entries_from, spec_lock_file,
    GitSource, PackageEntry, PackageSource, RegistrySource, SpecGitRef, SpecGitSource,
    SpecPackageSource, SpecRegistrySource, percent_decodes_to_utf8, spec_config_entry, spec_fetch_git_ref,
};
use crate::lex::{KeyOrder, compare_bytes, lemma_lex_asymmetric, lemma_lex_irreflexive, lemma_lex_transitive, lex_lt};
use crate::rustc::string_of;
use crate::text::push_str;
use crate::value::NixValue;

verus! {

/// A package of the lock file: its name and version.
#[derive(Clone, Debug, PartialEq, Eq)]
pub struct SourceId {
    pub package_name: String,
    pub version: String,
}

/// The bytes of a string: its UTF-8 encoding.
pub open spec fn bytes_of(s: Seq<char>) -> Seq<u8> {
    vstd::utf8::encode_utf8(s)
}

/// Source ids are ordered by package name, then by version, each compared
/// byte by byte.
pub open spec fn id_lt(a: (Seq<char>, Seq<char>), b: (Seq<char>, Seq<char>)) -> bool {
    ||| lex_lt(bytes_of(a.0), bytes_of(b.0))
    ||| (bytes_of(a.0) == bytes_of(b.0) && lex_lt(bytes_of(a.1), bytes_of(b.1)))
}

/// Two ids are the same id.
pub open spec fn id_eq(a: (Seq<char>, Seq<char>), b: (Seq<char>, Seq<char>)) -> bool {
    bytes_of(a.0) == bytes_of(b.0) && bytes_of(a.1) == bytes_of(b.1)
}

/// The order of ids is transitive.
pub proof fn lemma_id_transitive(a: (Seq<char>, Seq<char>), b: (Seq<char>, Seq<char>), c: (Seq<char>, Seq<char>))
    requires
        id_lt(a, b),
        id_lt(b, c),
    ensures
        id_lt(a, c),
{
    if lex_lt(bytes_of(a.0), bytes_of(b.0)) && lex_lt(bytes_of(b.0), bytes_of(c.0)) {
        lemma_lex_transitive(bytes_of(a.0), bytes_of(b.0), bytes_of(c.0));
    } else if lex_lt(bytes_of(b.1), bytes_of(c.1)) && lex_lt(bytes_of(a.1), bytes_of(b.1)) && bytes_of(a.0) == bytes_of(b.0) {
        lemma_lex_transitive(bytes_of(a.1), bytes_of(b.1), bytes_of(c.1));
    }
}

/// No id comes before itself or before an id that comes before it.
pub proof fn lemma_id_asymmetric(a: (Seq<char>, Seq<char>), b: (Seq<char>, Seq<char>))
    ensures
        !id_lt(a, a),
        id_lt(a, b) ==> !id_lt(b, a) && !id_eq(a, b),
{
    lemma_lex_irreflexive(bytes_of(a.0));
    lemma_lex_irreflexive(bytes_of(a.1));
    if lex_lt(bytes_of(a.0), bytes_of(b.0)) {
        lemma_lex_asymmetric(bytes_of(a.0), bytes_of(b.0));
    }
    if lex_lt(bytes_of(a.1), bytes_of(b.1)) {
        lemma_lex_asymmetric(bytes_of(a.1), bytes_of(b.1));
    }
    lemma_lex_irreflexive(bytes_of(b.0));
}

impl SourceId {
    /// The name and version.
    pub open spec fn spec_id(&self) -> (Seq<char>, Seq<char>) {
        (self.package_name@, self.version@)
    }

    /// How this id compares to `other`: by package name, then by version.
    pub fn compare(&self, other: &SourceId) -> (r: KeyOrder)
        ensures
            r == KeyOrder::Less <==> id_lt(self.spec_id(), other.spec_id()),
            r == KeyOrder::Greater <==> id_lt(other.spec_id(), self.spec_id()),
            r == KeyOrder::Equal <==> id_eq(self.spec_id(), other.spec_id()),
    {
        let a = self.package_name.as_str().as_bytes();
        let b = other.package_name.as_str().as_bytes();
        let c = self.version.as_str().as_bytes();
        let d = other.version.as_str().as_bytes();
        proof {
            lemma_id_asymmetric(self.spec_id(), other.spec_id());
            lemma_id_asymmetric(other.spec_id(), self.spec_id());
        }
        match compare_bytes(a, b) {
            KeyOrder::Less => KeyOrder::Less,
            KeyOrder::Greater => KeyOrder::Greater,
            KeyOrder::Equal => compare_bytes(c, d),
        }
    }

    /// The name of the vendored directory of the package: its name and
    /// version joined with a dash.
    pub fn dir_name(&self) -> (r: String)
        ensures
            r@ == self.package_name@ + "-"@ + self.version@,
    {
        let mut out = string_of(self.package_name.as_str());
        push_str(&mut out, "-");
        push_str(&mut out, self.version.as_str());
        out
    }
}

/// The vendored source of a package: its id and the derivation of its
/// sources.
pub struct Source {
    pub id: SourceId,
    pub derivation: NixValue,
}

/// The sources of the packages of a lock file, in the order of their ids,
/// and the Cargo configuration that replaces their origins with the
/// vendored directory.
pub struct VendoredSources {
    sources: Vec<Source>,
    config_dot_toml: String,
}

/// The ids of planned fetches.
pub open spec fn fetch_ids(f: Seq<(SourceId, Fetch)>) -> Seq<(Seq<char>, Seq<char>)> {
    f.map_values(|x: (SourceId, Fetch)| x.0.spec_id())
}

/// The ids of sources.
pub open spec fn ids_of(s: Seq<Source>) -> Seq<(Seq<char>, Seq<char>)> {
    s.map_values(|x: Source| x.id.spec_id())
}

/// The ids are in strictly ascending order.
pub open spec fn ids_sorted(ids: Seq<(Seq<char>, Seq<char>)>) -> bool {
    forall|i: int, j: int| 0 <= i < j < ids.len() ==> id_lt(#[trigger] ids[i], #[trigger] ids[j])
}

/// A source of `s` has the id `id`.
pub open spec fn has_id(s: Seq<Source>, id: (Seq<char>, Seq<char>)) -> bool {
    exists|i: int| 0 <= i < s.len() && (#[trigger] s[i]).id.spec_id() == id
}

/// `ids[j]` is the first of the ids that is equal to it.
pub open spec fn is_first_id(ids: Seq<(Seq<char>, Seq<char>)>, j: int) -> bool {
    &&& 0 <= j < ids.len()
    &&& forall|k: int| 0 <= k < j ==> ids[k] != ids[j]
}

/// Each source of `s` is that of the first fetch with its id.
#[verifier::opaque]
pub open spec fn sources_fetched(s: Seq<Source>, ids: Seq<(Seq<char>, Seq<char>)>, derivations: Seq<NixValue>) -> bool {
    forall|i: int| 0 <= i < s.len() ==> exists|j: int| #[trigger] is_first_id(ids, j) && (#[trigger] s[i]).id.spec_id() == ids[j]
        && s[i].derivation == derivations[j]
}

/// The first fetch with each id has its source in `s`.
#[verifier::opaque]
pub open spec fn fetches_stored(s: Seq<Source>, ids: Seq<(Seq<char>, Seq<char>)>, derivations: Seq<NixValue>) -> bool {
    forall|j: int| #[trigger] is_first_id(ids, j) ==> exists|i: int| 0 <= i < s.len() && (#[trigger] s[i]).id.spec_id() == ids[j]
        && s[i].derivation == derivations[j]
}

/// The sources `s` are those fetched with the ids `ids` and the derivations
/// `derivations`, one for each id, with the derivation of the first fetch
/// that has it.
pub open spec fn holds_fetched(s: Seq<Source>, ids: Seq<(Seq<char>, Seq<char>)>, derivations: Seq<NixValue>) -> bool {
    &&& sources_fetched(s, ids, derivations)
    &&& fetches_stored(s, ids, derivations)
}

/// Two ids are the same id exactly when they are equal: UTF-8 encodes
/// distinct texts as distinct bytes.
pub proof fn lemma_id_eq(a: (Seq<char>, Seq<char>), b: (Seq<char>, Seq<char>))
    ensures
        id_eq(a, b) <==> a == b,
{
    broadcast use vstd::utf8::encode_utf8_decode_utf8;

    if id_eq(a, b) {
        assert(vstd::utf8::decode_utf8(bytes_of(a.0)) == vstd::utf8::decode_utf8(bytes_of(b.0)));
        assert(vstd::utf8::decode_utf8(bytes_of(a.1)) == vstd::utf8::decode_utf8(bytes_of(b.1)));
    }
}

/// An id of `ids` is equal to the first of the ids that is equal to it.
pub proof fn lemma_first_id(ids: Seq<(Seq<char>, Seq<char>)>, j: int)
    requires
        0 <= j < ids.len(),
    ensures
        exists|f: int| f <= j && #[trigger] is_first_id(ids, f) && ids[f] == ids[j],
    decreases j,
{
    if is_first_id(ids, j) {
    } else {
        let k = choose|k: int| 0 <= k < j && ids[k] == ids[j];
        lemma_first_id(ids, k);
    }
}

/// The fetches before `n` are the same whether the fetch at `n` is counted
/// or not.
proof fn lemma_fetch_prefix(ids: Seq<(Seq<char>, Seq<char>)>, derivations: Seq<NixValue>, n: int)
    requires
        0 <= n < ids.len(),
        ids.len() == derivations.len(),
    ensures
        forall|j: int| 0 <= j < n ==> (#[trigger] is_first_id(ids.take(n + 1), j)) == is_first_id(ids.take(n), j),
        forall|j: int| 0 <= j < n ==> #[trigger] ids.take(n + 1)[j] == ids.take(n)[j] && derivations.take(n + 1)[j]
            == derivations.take(n)[j],
        ids.take(n + 1)[n] == ids[n],
        derivations.take(n + 1)[n] == derivations[n],
{
    let i0 = ids.take(n);
    let i1 = ids.take(n + 1);
    assert forall|j: int| 0 <= j < n implies (#[trigger] is_first_id(i1, j)) == is_first_id(i0, j) by {
        if is_first_id(i0, j) {
            assert forall|k: int| 0 <= k < j implies i1[k] != i1[j] by {
                assert(i1[k] == i0[k]);
            }
        }
        if is_first_id(i1, j) {
            assert forall|k: int| 0 <= k < j implies i0[k] != i0[j] by {
                assert(i1[k] == i0[k]);
            }
        }
    }
}

/// Adding the source of a fetch whose id a source already has keeps the
/// sources of the fetches before it.
proof fn lemma_fetched_kept(
    prev: Seq<Source>,
    ids: Seq<(Seq<char>, Seq<char>)>,
    derivations: Seq<NixValue>,
    n: int,
)
    requires
        0 <= n < ids.len(),
        ids.len() == derivations.len(),
        holds_fetched(prev, ids.take(n), derivations.take(n)),
        has_id(prev, ids[n]),
    ensures
        holds_fetched(prev, ids.take(n + 1), derivations.take(n + 1)),
{
    let i0 = ids.take(n);
    let d0 = derivations.take(n);
    let i1 = ids.take(n + 1);
    let d1 = derivations.take(n + 1);
    lemma_fetch_prefix(ids, derivations, n);
    assert(!is_first_id(i1, n)) by {
        reveal(sources_fetched);
        let i = choose|i: int| 0 <= i < prev.len() && (#[trigger] prev[i]).id.spec_id() == ids[n];
        let jf = choose|j: int| #[trigger] is_first_id(i0, j) && prev[i].id.spec_id() == i0[j] && prev[i].derivation == d0[j];
        assert(i1[jf] == i1[n]);
    }
    assert(sources_fetched(prev, i1, d1)) by {
        reveal(sources_fetched);
        assert forall|i: int| 0 <= i < prev.len() implies exists|j: int| #[trigger] is_first_id(i1, j) && (#[trigger] prev[i]).id.spec_id()
            == i1[j] && prev[i].derivation == d1[j] by {
            let j = choose|j: int| #[trigger] is_first_id(i0, j) && prev[i].id.spec_id() == i0[j] && prev[i].derivation == d0[j];
            assert(is_first_id(i1, j));
        }
    }
    assert(fetches_stored(prev, i1, d1)) by {
        reveal(fetches_stored);
        assert forall|j: int| #[trigger] is_first_id(i1, j) implies exists|i: int| 0 <= i < prev.len() && (#[trigger] prev[i]).id.spec_id()
            == i1[j] && prev[i].derivation == d1[j] by {
            assert(j < n);
            assert(is_first_id(i0, j));
        }
    }
}

/// Adding the source of a fetch whose id no source has, at its place,
/// gives the sources of the fetches up to it.
#[verifier::rlimit(30)]
proof fn lemma_fetched_inserted(
    prev: Seq<Source>,
    ids: Seq<(Seq<char>, Seq<char>)>,
    derivations: Seq<NixValue>,
    n: int,
    src: Source,
    p: int,
)
    requires
        0 <= n < ids.len(),
        ids.len() == derivations.len(),
        holds_fetched(prev, ids.take(n), derivations.take(n)),
        src.id.spec_id() == ids[n],
        src.derivation == derivations[n],
        !has_id(prev, ids[n]),
        0 <= p <= prev.len(),
    ensures
        holds_fetched(prev.insert(p, src), ids.take(n + 1), derivations.take(n + 1)),
{
    reveal(sources_fetched);
    reveal(fetches_stored);
    let now = prev.insert(p, src);
    let i0 = ids.take(n);
    let d0 = derivations.take(n);
    let i1 = ids.take(n + 1);
    let d1 = derivations.take(n + 1);
    lemma_fetch_prefix(ids, derivations, n);
    assert(is_first_id(i1, n)) by {
        assert forall|k: int| 0 <= k < n implies i1[k] != i1[n] by {
            if i1[k] == i1[n] {
                lemma_first_id(i0, k);
                let f = choose|f: int| f <= k && #[trigger] is_first_id(i0, f) && i0[f] == i0[k];
                let i = choose|i: int| 0 <= i < prev.len() && (#[trigger] prev[i]).id.spec_id() == i0[f] && prev[i].derivation == d0[f];
                assert(prev[i].id.spec_id() == ids[n]);
            }
        }
    }
    assert forall|i: int| 0 <= i < now.len() implies exists|j: int| #[trigger] is_first_id(i1, j) && (#[trigger] now[i]).id.spec_id()
        == i1[j] && now[i].derivation == d1[j] by {
        if i < p {
            assert(now[i] == prev[i]);
            let j = choose|j: int| #[trigger] is_first_id(i0, j) && prev[i].id.spec_id() == i0[j] && prev[i].derivation == d0[j];
            assert(is_first_id(i1, j));
        } else if i == p {
            assert(now[i] == src);
        } else {
            assert(now[i] == prev[i - 1]);
            let j = choose|j: int| #[trigger] is_first_id(i0, j) && prev[i - 1].id.spec_id() == i0[j] && prev[i - 1].derivation == d0[j];
            assert(is_first_id(i1, j));
        }
    }
    assert forall|j: int| #[trigger] is_first_id(i1, j) implies exists|i: int| 0 <= i < now.len() && (#[trigger] now[i]).id.spec_id()
        == i1[j] && now[i].derivation == d1[j] by {
        if j == n {
            assert(now[p] == src);
        } else {
            assert(is_first_id(i0, j));
            let i = choose|i: int| 0 <= i < prev.len() && (#[trigger] prev[i]).id.spec_id() == i0[j] && prev[i].derivation == d0[j];
            if i < p {
                assert(now[i] == prev[i]);
            } else {
                assert(now[i + 1] == prev[i]);
            }
        }
    }
}

/// Adding the source of the fetch at `n` to the sources of the fetches
/// before it gives the sources of the fetches up to it.
proof fn lemma_fetched_step(
    prev: Seq<Source>,
    now: Seq<Source>,
    ids: Seq<(Seq<char>, Seq<char>)>,
    derivations: Seq<NixValue>,
    n: int,
    src: Source,
)
    requires
        0 <= n < ids.len(),
        ids.len() == derivations.len(),
        holds_fetched(prev, ids.take(n), derivations.take(n)),
        src.id.spec_id() == ids[n],
        src.derivation == derivations[n],
        has_id(prev, ids[n]) ==> now == prev,
        !has_id(prev, ids[n]) ==> exists|p: int| 0 <= p <= prev.len() && now == prev.insert(p, src),
    ensures
        holds_fetched(now, ids.take(n + 1), derivations.take(n + 1)),
{
    if has_id(prev, ids[n]) {
        lemma_fetched_kept(prev, ids, derivations, n);
    } else {
        let p = choose|p: int| 0 <= p <= prev.len() && now == prev.insert(p, src);
        lemma_fetched_inserted(prev, ids, derivations, n, src, p);
    }
}

/// The configuration that replaces crates.io with the directory source
/// named `replace_with`.
pub open spec fn config_header(replace_with: Seq<char>) -> Seq<char> {
    "[source.crates-io]\nreplace-with = \""@ + replace_with + "\"\n\n[source."@ + replace_with
        + "]\ndirectory = \".\"\n"@
}

impl VendoredSources {
    /// The sources.
    pub closed spec fn spec_sources(&self) -> Seq<Source> {
        self.sources@
    }

    /// The Cargo configuration.
    pub closed spec fn spec_config(&self) -> Seq<char> {
        self.config_dot_toml@
    }

    /// The sources are sorted by id.
    pub open spec fn wf(&self) -> bool {
        ids_sorted(ids_of(self.spec_sources()))
    }

    /// No source yet, and the configuration that replaces crates.io with
    /// the directory source named `replace_with`.
    pub fn new(replace_with: &str) -> (r: VendoredSources)
        ensures
            r.wf(),
            r.spec_sources().len() == 0,
            r.spec_config() == config_header(replace_with@),
    {
        let mut config = string_of("[source.crates-io]\nreplace-with = \"");
        push_str(&mut config, replace_with);
        push_str(&mut config, "\"\n\n[source.");
        push_str(&mut config, replace_with);
        push_str(&mut config, "]\ndirectory = \".\"\n");
        VendoredSources { sources: Vec::new(), config_dot_toml: config }
    }

    /// Adds the configuration entry that replaces the git source `git`.
    pub fn add_git_source(&mut self, git: &GitSource, replace_with: &str)
        ensures
            final(self).spec_sources() == old(self).spec_sources(),
            final(self).spec_config() == old(self).spec_config() + spec_config_entry(git@, replace_with@),
    {
        let entry = git.into_cargo_config_entry(replace_with);
        push_str(&mut self.config_dot_toml, entry.as_str());
    }

    /// Where the id of `source_id` is among the sources, by binary search:
    /// `Ok` with the position of the source with that id, or `Err` with the
    /// position a source with that id goes to, after the smaller ids and
    /// before the larger ones.
    fn search(&self, source_id: &SourceId) -> (r: Result<usize, usize>)
        requires
            self.wf(),
        ensures
            match r {
                Ok(i) => i < self.spec_sources().len() && id_eq(
                    self.spec_sources()[i as int].id.spec_id(),
                    source_id.spec_id(),
                ),
                Err(p) => {
                    &&& p <= self.spec_sources().len()
                    &&& forall|j: int| 0 <= j < p ==> id_lt(#[trigger] ids_of(self.spec_sources())[j], source_id.spec_id())
                    &&& forall|j: int| p <= j < self.spec_sources().len() ==> id_lt(
                        source_id.spec_id(),
                        #[trigger] ids_of(self.spec_sources())[j],
                    )
                },
            },
    {
        let ghost ids = ids_of(self.sources@);
        let mut lo: usize = 0;
        let mut hi: usize = self.sources.len();
        while lo < hi
            invariant
                ids == ids_of(self.sources@),
                ids_sorted(ids),
                0 <= lo <= hi <= self.sources@.len(),
                forall|j: int| 0 <= j < lo ==> id_lt(#[trigger] ids[j], source_id.spec_id()),
                forall|j: int| hi <= j < self.sources@.len() ==> id_lt(source_id.spec_id(), #[trigger] ids[j]),
            decreases hi - lo,
        {
            let mid = lo + (hi - lo) / 2;
            match self.sources[mid].id.compare(source_id) {
                KeyOrder::Equal => {
                    return Ok(mid);
                },
                KeyOrder::Less => {
                    proof {
                        assert forall|j: int| 0 <= j < mid + 1 implies id_lt(#[trigger] ids[j], source_id.spec_id()) by {
                            if j < mid {
                                lemma_id_transitive(ids[j], ids[mid as int], source_id.spec_id());
                            }
                        }
                    }
                    lo = mid + 1;
                },
                KeyOrder::Greater => {
                    proof {
                        assert forall|j: int| mid <= j < self.sources@.len() implies id_lt(source_id.spec_id(), #[trigger] ids[j]) by {
                            if j > mid {
                                lemma_id_transitive(source_id.spec_id(), ids[mid as int], ids[j]);
                            }
                        }
                    }
                    hi = mid;
                },
            }
        }
        Err(lo)
    }

    /// Adds the source of a package at its place in the order of the ids.
    /// A package whose id is already there keeps the source it has.
    pub fn push(&mut self, id: SourceId, derivation: NixValue)
        requires
            old(self).wf(),
        ensures
            final(self).wf(),
            final(self).spec_config() == old(self).spec_config(),
            has_id(old(self).spec_sources(), id.spec_id()) ==> final(self).spec_sources() == old(self).spec_sources(),
            !has_id(old(self).spec_sources(), id.spec_id()) ==> exists|p: int|
                0 <= p <= old(self).spec_sources().len() && final(self).spec_sources() == old(
                    self,
                ).spec_sources().insert(p, Source { id, derivation }),
    {
        let ghost prev = ids_of(self.sources@);
        let ghost new_id = id.spec_id();
        match self.search(&id) {
            Ok(i) => {
                proof {
                    lemma_id_eq(self.sources@[i as int].id.spec_id(), new_id);
                }
            },
            Err(p) => {
                proof {
                    if has_id(self.sources@, new_id) {
                        let i = choose|i: int| 0 <= i < self.sources@.len() && #[trigger] self.sources@[i].id.spec_id() == new_id;
                        assert(prev[i] == new_id);
                        lemma_id_asymmetric(new_id, new_id);
                    }
                }
                let ghost old_sources = self.sources@;
                self.sources.insert(p, Source { id, derivation });
                proof {
                    let now = ids_of(self.sources@);
                    assert(now =~= prev.insert(p as int, new_id));
                    assert forall|i: int, j: int| 0 <= i < j < now.len() implies id_lt(#[trigger] now[i], #[trigger] now[j]) by {
                        if j < p {
                            assert(now[i] == prev[i] && now[j] == prev[j]);
                        } else if j == p {
                            assert(now[i] == prev[i]);
                        } else if i < p {
                            assert(now[i] == prev[i] && now[j] == prev[j - 1]);
                            lemma_id_transitive(prev[i], new_id, prev[j - 1]);
                        } else if i == p {
                            assert(now[j] == prev[j - 1]);
                        } else {
                            assert(now[i] == prev[i - 1] && now[j] == prev[j - 1]);
                        }
                    }
                    assert(self.sources@ == old_sources.insert(p as int, Source { id, derivation }));
                }
            },
        }
    }

    /// The derivation of the source with the id `source_id`, if any, found
    /// by binary search.
    pub fn get(&self, source_id: &SourceId) -> (r: Option<NixValue>)
        requires
            self.wf(),
        ensures
            match r {
                Some(d) => exists|i: int| 0 <= i < self.spec_sources().len() && id_eq(
                    #[trigger] self.spec_sources()[i].id.spec_id(),
                    source_id.spec_id(),
                ) && self.spec_sources()[i].derivation == d,
                None => forall|i: int| 0 <= i < self.spec_sources().len() ==> !id_eq(
                    #[trigger] self.spec_sources()[i].id.spec_id(),
                    source_id.spec_id(),
                ),
            },
            forall|i: int| 0 <= i < self.spec_sources().len() && id_eq(
                #[trigger] self.spec_sources()[i].id.spec_id(),
                source_id.spec_id(),
            ) ==> r == Some(self.spec_sources()[i].derivation),
    {
        let ghost ids = ids_of(self.sources@);
        match self.search(source_id) {
            Ok(mid) => {
                proof {
                    assert(ids[mid as int] == self.sources@[mid as int].id.spec_id());
                    assert forall|i: int| 0 <= i < self.spec_sources().len() && id_eq(
                        #[trigger] self.spec_sources()[i].id.spec_id(),
                        source_id.spec_id(),
                    ) implies i == mid by {
                        assert(ids[i] == self.sources@[i].id.spec_id());
                        lemma_id_eq(ids[i], source_id.spec_id());
                        lemma_id_eq(ids[mid as int], source_id.spec_id());
                        lemma_ids_unique(ids, i, mid as int);
                    }
                }
                Some(self.sources[mid].derivation)
            },
            Err(p) => {
                proof {
                    assert forall|i: int| 0 <= i < self.sources@.len() implies !id_eq(
                        #[trigger] self.sources@[i].id.spec_id(),
                        source_id.spec_id(),
                    ) by {
                        assert(ids[i] == self.sources@[i].id.spec_id());
                        lemma_id_asymmetric(ids[i], source_id.spec_id());
                        lemma_id_asymmetric(source_id.spec_id(), ids[i]);
                    }
                }
                None
            },
        }
    }

    /// Adds the sources fetched as `fetches` plans, the source of
    /// `fetches[j]` being the derivation `derivations[j]`: each at its place
    /// in the order of the ids, where `get` looks it up. Of fetches with the
    /// same id, the first one's source is kept.
    pub fn add_fetched(&mut self, fetches: Vec<(SourceId, Fetch)>, derivations: Vec<NixValue>)
        requires
            old(self).wf(),
            old(self).spec_sources().len() == 0,
            fetches@.len() == derivations@.len(),
        ensures
            final(self).wf(),
            final(self).spec_config() == old(self).spec_config(),
            holds_fetched(final(self).spec_sources(), fetch_ids(fetches@), derivations@),
    {
        let ghost all_ids = fetch_ids(fetches@);
        let ghost all_derivations = derivations@;
        let mut fetches = fetches;
        let mut derivations = derivations;
        let ghost mut added: int = 0;
        proof {
            reveal(sources_fetched);
            reveal(fetches_stored);
        }
        while fetches.len() > 0
            invariant
                self.wf(),
                self.spec_config() == old(self).spec_config(),
                fetches@.len() == derivations@.len(),
                0 <= added <= all_ids.len(),
                all_ids.len() == all_derivations.len(),
                fetch_ids(fetches@) == all_ids.skip(added),
                derivations@ == all_derivations.skip(added),
                holds_fetched(self.spec_sources(), all_ids.take(added), all_derivations.take(added)),
            decreases fetches@.len(),
        {
            let ghost before = fetch_ids(fetches@);
            let ghost old_fetches = fetches@;
            let ghost old_derivations = derivations@;
            let ghost prev = self.spec_sources();
            let (id, _fetch) = fetches.remove(0);
            let derivation = derivations.remove(0);
            proof {
                assert(id.spec_id() == all_ids[added]) by {
                    assert(before[0] == all_ids.skip(added)[0]);
                }
                assert(derivation == all_derivations[added]) by {
                    assert(old_derivations[0] == all_derivations.skip(added)[0]);
                }
                assert(fetches@ =~= old_fetches.skip(1));
                assert forall|k: int| 0 <= k < fetches@.len() implies #[trigger] fetch_ids(fetches@)[k] == all_ids.skip(
                    added + 1,
                )[k] by {
                    assert(fetches@[k] == old_fetches[k + 1]);
                    assert(before[k + 1] == all_ids.skip(added)[k + 1]);
                }
                assert(fetch_ids(fetches@) =~= all_ids.skip(added + 1));
                assert(derivations@ =~= all_derivations.skip(added + 1));
            }
            let ghost src = Source { id, derivation };
            self.push(id, derivation);
            proof {
                lemma_fetched_step(prev, self.spec_sources(), all_ids, all_derivations, added, src);
                added = added + 1;
            }
        }
        assert(all_ids.take(added) =~= all_ids);
        assert(all_derivations.take(added) =~= all_derivations);
    }

    /// The Cargo configuration.
    pub fn config_dot_toml(&self) -> (r: &str)
        ensures
            r@ == self.spec_config(),
    {
        self.config_dot_toml.as_str()
    }
}

/// In sources sorted by id, no two sources have the same id: the source
/// `get` finds for an id is the one added with it.
pub proof fn lemma_ids_unique(ids: Seq<(Seq<char>, Seq<char>)>, i: int, j: int)
    requires
        ids_sorted(ids),
        0 <= i < ids.len(),
        0 <= j < ids.len(),
        id_eq(ids[i], ids[j]),
    ensures
        i == j,
{
    if i < j {
        lemma_id_asymmetric(ids[i], ids[j]);
    } else if j < i {
        lemma_id_asymmetric(ids[j], ids[i]);
    }
}

/// What to fetch for a package of crates.io: the archive, under its name,
/// from crates.io's static host, checked against its checksum, and the
/// name of the directory it is unpacked into.
pub struct RegistryFetch {
    /// The name of the downloaded archive.
    pub name: String,
    pub url: String,
    pub sha256: String,
    /// The name of the unpacked directory.
    pub dir_name: String,
}

/// The URL of a crate's archive on crates.io's static host.
pub open spec fn crate_url(name: Seq<char>, version: Seq<char>) -> Seq<char> {
    "https://static.crates.io/crates/"@ + name + "/"@ + name + "-"@ + version + ".crate"@
}

/// `f` is what to fetch for the package `name` at `version` of the registry
/// source `source`.
pub open spec fn is_registry_fetch(f: RegistryFetch, source: SpecRegistrySource, name: Seq<char>, version: Seq<char>) -> bool {
    &&& f.name@ == name + "-"@ + version + ".tar.gz"@
    &&& f.url@ == crate_url(name, version)
    &&& f.sha256@ == source.checksum
    &&& f.dir_name@ == name + "-"@ + version
}

/// What to fetch for the package `pkg_name` at `pkg_version` of crates.io;
/// other registries are not supported.
pub fn registry_fetch(source: &RegistrySource, pkg_name: &str, pkg_version: &str) -> (r: RegistryFetch)
    requires
        source.kind is CratesIo,
    ensures
        is_registry_fetch(r, source@, pkg_name@, pkg_version@),
{
    let mut name = string_of(pkg_name);
    push_str(&mut name, "-");
    push_str(&mut name, pkg_version);
    push_str(&mut name, ".tar.gz");
    let mut url = string_of("https://static.crates.io/crates/");
    push_str(&mut url, pkg_name);
    push_str(&mut url, "/");
    push_str(&mut url, pkg_name);
    push_str(&mut url, "-");
    push_str(&mut url, pkg_version);
    push_str(&mut url, ".crate");
    let mut dir_name = string_of(pkg_name);
    push_str(&mut dir_name, "-");
    push_str(&mut dir_name, pkg_version);
    RegistryFetch { name, url, sha256: source.checksum.clone(), dir_name }
}

/// What to fetch for a git dependency: the repository at the revision,
/// with its submodules, under the reference it was pinned with if it can be
/// passed on, or searching all references otherwise; and the name of the
/// directory it is copied into.
pub struct GitFetch {
    pub url: String,
    pub rev: String,
    pub submodules: bool,
    /// The `ref` argument, if the reference can be passed on.
    pub git_ref: Option<String>,
    /// Whether to search all references, when there is no `ref`.
    pub all_refs: bool,
    /// The name of the copied directory.
    pub name: String,
}

/// The text of the first eight bytes of a revision.
pub open spec fn rev_prefix(rev: Seq<char>) -> Seq<char> {
    decode_utf8(bytes_of(rev).subrange(0, 8))
}

/// The first eight bytes of the revision end on a character boundary, and
/// a revision reference percent-decodes to UTF-8: what fetching a git
/// source needs.
pub open spec fn git_fetch_supported(source: SpecGitSource) -> bool {
    &&& is_char_boundary(bytes_of(source.rev), 8)
    &&& (source.git_ref matches Some(SpecGitRef::Rev(rev)) ==> percent_decodes_to_utf8(rev))
}

/// `f` is what to fetch for the git source `source`.
pub open spec fn is_git_fetch(f: GitFetch, source: SpecGitSource) -> bool {
    &&& f.url@ == source.url
    &&& f.rev@ == source.rev
    &&& f.submodules
    &&& match source.git_ref {
        Some(g) => match spec_fetch_git_ref(g) {
            Some(s) => f.git_ref matches Some(x) && x@ == s && !f.all_refs,
            None => f.git_ref is None && f.all_refs,
        },
        None => f.git_ref is None && f.all_refs,
    }
    &&& f.name@ == "git-"@ + rev_prefix(source.rev)
}

/// What to fetch for the git source `source`; the directory is named after
/// the first eight bytes of its revision.
pub fn git_fetch(source: &GitSource) -> (r: GitFetch)
    requires
        git_fetch_supported(source@),
    ensures
        is_git_fetch(r, source@),
{
    broadcast use vstd::utf8::encode_utf8_decode_utf8, vstd::utf8::encode_utf8_valid_utf8;

    let git_ref = match &source.git_ref {
        Some(g) => g.format_for_fetch_git(),
        None => None,
    };
    let all_refs = git_ref.is_none();
    let (head, _rest) = source.rev.as_str().split_at(8);
    let mut name = string_of("git-");
    push_str(&mut name, head);
    assert(head@ == decode_utf8(head.spec_bytes()));
    GitFetch {
        url: source.url.clone(),
        rev: source.rev.clone(),
        submodules: true,
        git_ref,
        all_refs,
        name,
    }
}

/// What to fetch for one package of the lock file.
pub enum Fetch {
    Registry(RegistryFetch),
    Git(GitFetch),
}

/// The source can be fetched: crates.io among the registries, and git
/// sources as `git_fetch_supported` says.
pub open spec fn fetch_supported(source: SpecPackageSource) -> bool {
    match source {
        SpecPackageSource::Registry(r) => r.kind is CratesIo,
        SpecPackageSource::Git(g) => git_fetch_supported(g),
    }
}

impl VendoredSources {
    /// Plans the vendoring of one package of the lock file: nothing for a
    /// package without a source; for a registry package, its archive; for
    /// a git package, its repository, and the configuration entry that
    /// replaces its git source.
    pub fn plan_fetch(&mut self, entry: &PackageEntry, replace_with: &str) -> (r: Option<Fetch>)
        requires
            entry.source matches Some(s) ==> fetch_supported(s@),
        ensures
            final(self).spec_sources() == old(self).spec_sources(),
            match entry.source {
                None => r is None && final(self).spec_config() == old(self).spec_config(),
                Some(PackageSource::Registry(reg)) => {
                    &&& r matches Some(Fetch::Registry(f)) && is_registry_fetch(f, reg@, entry.name@, entry.version@)
                    &&& final(self).spec_config() == old(self).spec_config()
                },
                Some(PackageSource::Git(g)) => {
                    &&& r matches Some(Fetch::Git(f)) && is_git_fetch(f, g@)
                    &&& final(self).spec_config() == old(self).spec_config() + spec_config_entry(g@, replace_with@)
                },
            },
    {
        match &entry.source {
            None => None,
            Some(PackageSource::Registry(reg)) => Some(
                Fetch::Registry(registry_fetch(reg, entry.name.as_str(), entry.version.as_str())),
            ),
            Some(PackageSource::Git(g)) => {
                self.add_git_source(g, replace_with);
                Some(Fetch::Git(git_fetch(g)))
            },
        }
    }
}

/// `planned` is what to fetch for the package `e`, whose source is `s`: its
/// id, and the fetch of its source.
pub open spec fn is_planned_fetch(planned: (SourceId, Fetch), e: SpecPackageEntry, s: SpecPackageSource) -> bool {
    &&& planned.0.package_name@ == e.name
    &&& planned.0.version@ == e.version
    &&& match (s, planned.1) {
        (SpecPackageSource::Registry(r), Fetch::Registry(f)) => is_registry_fetch(f, r, e.name, e.version),
        (SpecPackageSource::Git(g), Fetch::Git(f)) => is_git_fetch(f, g),
        _ => false,
    }
}

/// `fetches` are, in order, what to fetch for the entries of `entries` that
/// have a source.
pub open spec fn fetches_for(entries: Seq<SpecPackageEntry>, fetches: Seq<(SourceId, Fetch)>) -> bool
    decreases entries.len(),
{
    if entries.len() == 0 {
        fetches.len() == 0
    } else {
        match entries.last().source {
            None => fetches_for(entries.drop_last(), fetches),
            Some(s) => {
                &&& fetches.len() > 0
                &&& fetches_for(entries.drop_last(), fetches.drop_last())
                &&& is_planned_fetch(fetches.last(), entries.last(), s)
            },
        }
    }
}

/// The configuration entries that replace the git sources among `entries`,
/// in order.
pub open spec fn git_config(entries: Seq<SpecPackageEntry>, replace_with: Seq<char>) -> Seq<char>
    decreases entries.len(),
{
    if entries.len() == 0 {
        Seq::empty()
    } else {
        git_config(entries.drop_last(), replace_with) + match entries.last().source {
            Some(SpecPackageSource::Git(g)) => spec_config_entry(g, replace_with),
            _ => Seq::empty(),
        }
    }
}

/// An entry of `entries` with a source has the id `id`.
pub open spec fn has_sourced_entry(entries: Seq<SpecPackageEntry>, id: (Seq<char>, Seq<char>)) -> bool {
    exists|j: int| 0 <= j < entries.len() && (#[trigger] entries[j]).source is Some && (entries[j].name, entries[j].version) == id
}

/// The fetches planned for the entries of a lock file are those of its
/// packages that have a source: there is a fetch with an id exactly when a
/// package with a source has that name and version. Once the fetched
/// sources are added, `get` finds a package's source exactly then.
pub proof fn lemma_fetched_ids(entries: Seq<SpecPackageEntry>, fetches: Seq<(SourceId, Fetch)>)
    requires
        fetches_for(entries, fetches),
    ensures
        forall|id: (Seq<char>, Seq<char>)| #[trigger] fetch_ids(fetches).contains(id) <==> has_sourced_entry(entries, id),
    decreases entries.len(),
{
    if entries.len() == 0 {
        assert(fetch_ids(fetches) =~= Seq::<(Seq<char>, Seq<char>)>::empty());
    } else {
        let init = entries.drop_last();
        let last = entries.last();
        match last.source {
            None => {
                lemma_fetched_ids(init, fetches);
                assert forall|id: (Seq<char>, Seq<char>)| #[trigger] fetch_ids(fetches).contains(id) <==> has_sourced_entry(entries, id) by {
                    if has_sourced_entry(entries, id) {
                        let j = choose|j: int| 0 <= j < entries.len() && (#[trigger] entries[j]).source is Some && (entries[j].name, entries[j].version) == id;
                        assert(j < init.len());
                        assert(init[j] == entries[j]);
                    }
                    if has_sourced_entry(init, id) {
                        let j = choose|j: int| 0 <= j < init.len() && (#[trigger] init[j]).source is Some && (init[j].name, init[j].version) == id;
                        assert(entries[j] == init[j]);
                    }
                }
            },
            Some(_) => {
                let fi = fetches.drop_last();
                lemma_fetched_ids(init, fi);
                assert(fetch_ids(fetches) =~= fetch_ids(fi).push(fetches.last().0.spec_id()));
                assert(fetches.last().0.spec_id() == (last.name, last.version));
                assert forall|id: (Seq<char>, Seq<char>)| #[trigger] fetch_ids(fetches).contains(id) <==> has_sourced_entry(entries, id) by {
                    if has_sourced_entry(entries, id) {
                        let j = choose|j: int| 0 <= j < entries.len() && (#[trigger] entries[j]).source is Some && (entries[j].name, entries[j].version) == id;
                        if j < init.len() {
                            assert(init[j] == entries[j]);
                            assert(has_sourced_entry(init, id));
                            assert(fetch_ids(fi).contains(id));
                            let k = choose|k: int| 0 <= k < fetch_ids(fi).len() && fetch_ids(fi)[k] == id;
                            assert(fetch_ids(fetches)[k] == id);
                        } else {
                            assert(fetch_ids(fetches)[fetches.len() - 1] == id);
                        }
                    }
                    if fetch_ids(fetches).contains(id) {
                        let k = choose|k: int| 0 <= k < fetch_ids(fetches).len() && fetch_ids(fetches)[k] == id;
                        if k < fi.len() {
                            assert(fetch_ids(fi)[k] == id);
                            assert(fetch_ids(fi).contains(id));
                            assert(has_sourced_entry(init, id));
                            let j = choose|j: int| 0 <= j < init.len() && (#[trigger] init[j]).source is Some && (init[j].name, init[j].version) == id;
                            assert(entries[j] == init[j]);
                        } else {
                            assert(entries[entries.len() - 1] == last);
                        }
                    }
                }
            },
        }
    }
}

/// Once the sources fetched for the entries of a lock file are added, a
/// source has the id `id` exactly when a package of the lock file with a
/// source has that name and version, and its derivation is the one fetched
/// for the first such package. `get` finds exactly these sources.
pub proof fn lemma_vendored_lookup(
    entries: Seq<SpecPackageEntry>,
    fetches: Seq<(SourceId, Fetch)>,
    derivations: Seq<NixValue>,
    sources: Seq<Source>,
    id: (Seq<char>, Seq<char>),
)
    requires
        fetches_for(entries, fetches),
        derivations.len() == fetches.len(),
        holds_fetched(sources, fetch_ids(fetches), derivations),
    ensures
        has_id(sources, id) <==> has_sourced_entry(entries, id),
        forall|i: int| 0 <= i < sources.len() && (#[trigger] sources[i]).id.spec_id() == id ==> exists|j: int|
            #[trigger] is_first_id(fetch_ids(fetches), j) && fetch_ids(fetches)[j] == id && sources[i].derivation
                == derivations[j],
{
    let ids = fetch_ids(fetches);
    lemma_fetched_ids(entries, fetches);
    reveal(sources_fetched);
    reveal(fetches_stored);
    if has_id(sources, id) {
        let i = choose|i: int| 0 <= i < sources.len() && (#[trigger] sources[i]).id.spec_id() == id;
        let j = choose|j: int| #[trigger] is_first_id(ids, j) && sources[i].id.spec_id() == ids[j] && sources[i].derivation
            == derivations[j];
        assert(ids.contains(id));
    }
    if has_sourced_entry(entries, id) {
        assert(ids.contains(id));
        let j = choose|j: int| 0 <= j < ids.len() && ids[j] == id;
        lemma_first_id(ids, j);
        let f = choose|f: int| f <= j && #[trigger] is_first_id(ids, f) && ids[f] == ids[j];
        let i = choose|i: int| 0 <= i < sources.len() && (#[trigger] sources[i]).id.spec_id() == ids[f] && sources[i].derivation
            == derivations[f];
        assert(has_id(sources, id));
    }
}

/// Every entry with a source among `entries` can be fetched.
pub open spec fn all_fetch_supported(entries: Seq<SpecPackageEntry>) -> bool {
    forall|i: int| 0 <= i < entries.len() ==> ((#[trigger] entries[i]).source matches Some(s) ==> fetch_supported(s))
}

/// Plans the vendoring of the dependencies of the `Cargo.lock` text
/// `cargo_lock`: walks its entries in order and, for each that has a source,
/// plans its fetch and, for a git source, adds the configuration entry that
/// replaces it with the directory source named `replace_with`. The first
/// parse error stops the walk. The sources are added with `push` once their
/// derivations are made.
pub fn plan_vendoring(cargo_lock: &str, replace_with: &str) -> (r: Result<(VendoredSources, Vec<(SourceId, Fetch)>), CargoLockParseError>)
    requires
        all_fetch_supported(spec_lock_file(cargo_lock@).0),
    ensures
        match r {
            Ok((sources, fetches)) => {
                &&& spec_lock_file(cargo_lock@).1 is None
                &&& fetches_for(spec_lock_file(cargo_lock@).0, fetches@)
                &&& sources.wf()
                &&& sources.spec_sources().len() == 0
                &&& sources.spec_config() == config_header(replace_with@) + git_config(
                    spec_lock_file(cargo_lock@).0,
                    replace_with@,
                )
            },
            Err(e) => spec_lock_file(cargo_lock@).1 == Some(e@),
        },
{
    let ghost whole = spec_lock_file(cargo_lock@);
    let mut parser = CargoLockParser::new(cargo_lock);
    let mut sources = VendoredSources::new(replace_with);
    let mut fetches: Vec<(SourceId, Fetch)> = Vec::new();
    let ghost mut done: Seq<SpecPackageEntry> = Seq::empty();
    proof {
        assert(done + spec_entries_from(parser@.src, parser@.offset, parser@.position).0 =~= whole.0);
    }
    loop
        invariant_except_break
            whole.0 == done + spec_entries_from(parser@.src, parser@.offset, parser@.position).0,
            whole.1 == spec_entries_from(parser@.src, parser@.offset, parser@.position).1,
        invariant
            parser.wf(),
            parser@.src == cargo_lock@,
            whole == spec_lock_file(cargo_lock@),
            all_fetch_supported(whole.0),
            fetches_for(done, fetches@),
            sources.wf(),
            sources.spec_sources().len() == 0,
            sources.spec_config() == config_header(replace_with@) + git_config(done, replace_with@),
        ensures
            whole.1 is None,
            whole.0 == done,
            fetches_for(done, fetches@),
            sources.wf(),
            sources.spec_sources().len() == 0,
            sources.spec_config() == config_header(replace_with@) + git_config(done, replace_with@),
        decreases chars_left(parser@.src, parser@.offset), 5 - position_rank(parser@.position),
    {
        let ghost (o0, p0) = (parser@.offset, parser@.position);
        proof {
            parser.lemma_offset_in_text();
            lemma_run_progress(parser@.src, o0, p0, empty_entry());
        }
        match parser.next() {
            None => {
                assert(spec_entries_from(cargo_lock@, o0, p0).0 =~= Seq::<SpecPackageEntry>::empty());
                assert(whole.0 =~= done);
                break;
            },
            Some(Err(e)) => {
                return Err(e);
            },
            Some(Ok(entry)) => {
                let ghost rest = spec_entries_from(parser@.src, parser@.offset, parser@.position);
                proof {
                    assert(whole.0 == done + (seq![entry@] + rest.0));
                    assert(whole.0[done.len() as int] == entry@);
                    assert(done.push(entry@) + rest.0 =~= whole.0);
                }
                let ghost before_fetches = fetches@;
                let ghost before_config = sources.spec_config();
                let planned = sources.plan_fetch(&entry, replace_with);
                proof {
                    let d = done.push(entry@);
                    assert(d.drop_last() =~= done);
                    assert(d.last() == entry@);
                }
                match planned {
                    Some(f) => {
                        let id = SourceId { package_name: entry.name, version: entry.version };
                        fetches.push((id, f));
                        proof {
                            assert(fetches@.drop_last() =~= before_fetches);
                        }
                    },
                    None => {},
                }
                proof {
                    done = done.push(entry@);
                }
            },
        }
    }
    Ok((sources, fetches))
}

} // verus!
