//! The lexicographic order of byte strings, the order of `[u8]` and of `str`.

use vstd::prelude::*;

verus! {

/// `a` comes strictly before `b` in lexicographic order.
pub open spec fn lex_lt(a: Seq<u8>, b: Seq<u8>) -> bool
    decreases a.len(),
{
    if b.len() == 0 {
        false
    } else if a.len() == 0 {
        true
    } else if a[0] != b[0] {
        a[0] < b[0]
    } else {
        lex_lt(a.drop_first(), b.drop_first())
    }
}

/// No byte string comes before itself.
pub proof fn lemma_lex_irreflexive(a: Seq<u8>)
    ensures
        !lex_lt(a, a),
    decreases a.len(),
{
    if a.len() > 0 {
        lemma_lex_irreflexive(a.drop_first());
    }
}

/// The order is transitive.
pub proof fn lemma_lex_transitive(a: Seq<u8>, b: Seq<u8>, c: Seq<u8>)
    requires
        lex_lt(a, b),
        lex_lt(b, c),
    ensures
        lex_lt(a, c),
    decreases a.len(),
{
    if a.len() > 0 && b.len() > 0 && c.len() > 0 && a[0] == b[0] && b[0] == c[0] {
        lemma_lex_transitive(a.drop_first(), b.drop_first(), c.drop_first());
    }
}

/// The order is total: two byte strings are equal or one comes first.
pub proof fn lemma_lex_total(a: Seq<u8>, b: Seq<u8>)
    ensures
        a == b || lex_lt(a, b) || lex_lt(b, a),
    decreases a.len(),
{
    if a.len() == 0 || b.len() == 0 {
        if a.len() == 0 && b.len() == 0 {
            assert(a =~= b);
        }
    } else if a[0] == b[0] {
        lemma_lex_total(a.drop_first(), b.drop_first());
        if a.drop_first() == b.drop_first() {
            assert(a.drop_first().len() == a.len() - 1);
            assert(b.drop_first().len() == b.len() - 1);
            assert(a.len() == b.len());
            assert forall|k: int| 0 <= k < a.len() implies a[k] == b[k] by {
                if k > 0 {
                    assert(a[k] == a.drop_first()[k - 1]);
                    assert(b[k] == b.drop_first()[k - 1]);
                }
            }
            assert(a =~= b);
        }
    }
}

/// The order is asymmetric.
pub proof fn lemma_lex_asymmetric(a: Seq<u8>, b: Seq<u8>)
    requires
        lex_lt(a, b),
    ensures
        !lex_lt(b, a),
{
    if lex_lt(b, a) {
        lemma_lex_transitive(a, b, a);
        lemma_lex_irreflexive(a);
    }
}

/// Comparing from a common prefix on is comparing the whole strings.
proof fn lemma_lex_skip_common(a: Seq<u8>, b: Seq<u8>, i: int)
    requires
        0 <= i <= a.len(),
        i <= b.len(),
        a.take(i) == b.take(i),
    ensures
        lex_lt(a, b) == lex_lt(a.skip(i), b.skip(i)),
    decreases i,
{
    if i > 0 {
        assert(a[0] == a.take(i)[0]);
        assert(b[0] == b.take(i)[0]);
        assert(a.drop_first().take(i - 1) =~= a.take(i).drop_first());
        assert(b.drop_first().take(i - 1) =~= b.take(i).drop_first());
        lemma_lex_skip_common(a.drop_first(), b.drop_first(), i - 1);
        assert(a.drop_first().skip(i - 1) =~= a.skip(i));
        assert(b.drop_first().skip(i - 1) =~= b.skip(i));
    } else {
        assert(a.skip(0) =~= a);
        assert(b.skip(0) =~= b);
    }
}

/// The outcome of comparing two byte strings.
#[derive(Clone, Copy, Debug, PartialEq, Eq, Structural)]
pub enum KeyOrder {
    Less,
    Equal,
    Greater,
}

/// `o` is how `a` compares to `b`.
pub open spec fn is_order_of(o: KeyOrder, a: Seq<u8>, b: Seq<u8>) -> bool {
    match o {
        KeyOrder::Less => lex_lt(a, b),
        KeyOrder::Equal => a == b,
        KeyOrder::Greater => lex_lt(b, a),
    }
}

/// A copy of a byte string.
pub fn copy_bytes(v: &Vec<u8>) -> (r: Vec<u8>)
    ensures
        r@ == v@,
{
    let r = v.clone();
    assert(r@ =~= v@);
    r
}

/// Compares two byte strings lexicographically.
pub fn compare_bytes(a: &[u8], b: &[u8]) -> (r: KeyOrder)
    ensures
        is_order_of(r, a@, b@),
{
    let mut i: usize = 0;
    while i < a.len() && i < b.len()
        invariant
            0 <= i <= a@.len(),
            i <= b@.len(),
            a@.take(i as int) == b@.take(i as int),
        decreases a@.len() - i,
    {
        if a[i] != b[i] {
            proof {
                lemma_lex_skip_common(a@, b@, i as int);
                lemma_lex_skip_common(b@, a@, i as int);
            }
            if a[i] < b[i] {
                return KeyOrder::Less;
            } else {
                return KeyOrder::Greater;
            }
        }
        assert(a@.take(i + 1) =~= a@.take(i as int).push(a@[i as int]));
        assert(b@.take(i + 1) =~= b@.take(i as int).push(b@[i as int]));
        i = i + 1;
    }
    proof {
        lemma_lex_skip_common(a@, b@, i as int);
        lemma_lex_skip_common(b@, a@, i as int);
    }
    if i < b.len() {
        KeyOrder::Less
    } else if i < a.len() {
        KeyOrder::Greater
    } else {
        assert(a@ =~= a@.take(i as int));
        assert(b@ =~= b@.take(i as int));
        KeyOrder::Equal
    }
}

/// The byte strings of `s` are in strictly ascending order.
pub open spec fn strictly_sorted(s: Seq<Seq<u8>>) -> bool {
    forall|i: int, j: int| 0 <= i < j < s.len() ==> lex_lt(#[trigger] s[i], #[trigger] s[j])
}

/// The view of a vector of byte strings.
pub open spec fn keys_view(v: Seq<Vec<u8>>) -> Seq<Seq<u8>> {
    v.map_values(|k: Vec<u8>| k@)
}

/// Searches the strictly sorted `v` for `key`: `Ok` with its position, or
/// `Err` with the position where it would be inserted.
pub fn binary_search(v: &Vec<Vec<u8>>, key: &[u8]) -> (r: Result<usize, usize>)
    requires
        strictly_sorted(keys_view(v@)),
    ensures
        match r {
            Ok(i) => i < v@.len() && v@[i as int]@ == key@,
            Err(i) => {
                &&& i <= v@.len()
                &&& forall|j: int| 0 <= j < i ==> lex_lt(#[trigger] v@[j]@, key@)
                &&& forall|j: int| i <= j < v@.len() ==> lex_lt(key@, #[trigger] v@[j]@)
            },
        },
{
    let mut lo: usize = 0;
    let mut hi: usize = v.len();
    while lo < hi
        invariant
            0 <= lo <= hi <= v@.len(),
            strictly_sorted(keys_view(v@)),
            forall|j: int| 0 <= j < lo ==> lex_lt(#[trigger] v@[j]@, key@),
            forall|j: int| hi <= j < v@.len() ==> lex_lt(key@, #[trigger] v@[j]@),
        decreases hi - lo,
    {
        let mid = lo + (hi - lo) / 2;
        match compare_bytes(v[mid].as_slice(), key) {
            KeyOrder::Equal => {
                return Ok(mid);
            },
            KeyOrder::Less => {
                proof {
                    assert forall|j: int| 0 <= j < mid + 1 implies lex_lt(#[trigger] v@[j]@, key@) by {
                        if j < mid {
                            assert(keys_view(v@)[j] == v@[j]@);
                            assert(keys_view(v@)[mid as int] == v@[mid as int]@);
                            lemma_lex_transitive(v@[j]@, v@[mid as int]@, key@);
                        }
                    }
                }
                lo = mid + 1;
            },
            KeyOrder::Greater => {
                proof {
                    assert forall|j: int| mid <= j < v@.len() implies lex_lt(key@, #[trigger] v@[j]@) by {
                        if j > mid {
                            assert(keys_view(v@)[j] == v@[j]@);
                            assert(keys_view(v@)[mid as int] == v@[mid as int]@);
                            lemma_lex_transitive(key@, v@[mid as int]@, v@[j]@);
                        }
                    }
                }
                hi = mid;
            },
        }
    }
    Err(lo)
}

/// A strictly sorted list holds no byte string twice.
pub proof fn lemma_sorted_no_duplicates(s: Seq<Seq<u8>>)
    requires
        strictly_sorted(s),
    ensures
        s.no_duplicates(),
{
    assert forall|i: int, j: int| 0 <= i < s.len() && 0 <= j < s.len() && i != j implies s[i] != s[j] by {
        if i < j {
            lemma_lex_irreflexive(s[i]);
        } else {
            lemma_lex_irreflexive(s[j]);
        }
    }
}

/// Inserts `key`, which `v` does not hold, into the strictly sorted `v`, at
/// the position that keeps it sorted.
pub fn sorted_insert(v: &mut Vec<Vec<u8>>, key: Vec<u8>)
    requires
        strictly_sorted(keys_view(old(v)@)),
        !keys_view(old(v)@).contains(key@),
    ensures
        strictly_sorted(keys_view(final(v)@)),
        keys_view(final(v)@).to_set() == keys_view(old(v)@).to_set().insert(key@),
        final(v)@.len() == old(v)@.len() + 1,
{
    match binary_search(v, key.as_slice()) {
        Ok(i) => {
            proof {
                assert(keys_view(v@)[i as int] == key@);
            }
        },
        Err(i) => {
            let ghost prev = keys_view(v@);
            let ghost k = key@;
            v.insert(i, key);
            proof {
                let now = keys_view(v@);
                assert(now =~= prev.insert(i as int, k));
                assert forall|a: int, b: int| 0 <= a < b < now.len() implies lex_lt(#[trigger] now[a], #[trigger] now[b]) by {
                    if b < i {
                    } else if b == i {
                        assert(now[a] == v@[a]@);
                    } else if a < i {
                        assert(now[b] == v@[b]@);
                        assert(lex_lt(k, now[b]));
                        if a < i {
                            assert(lex_lt(now[a], k));
                            lemma_lex_transitive(now[a], k, now[b]);
                        }
                    } else if a == i {
                        assert(now[b] == v@[b]@);
                    } else {
                        assert(now[a] == prev[a - 1]);
                        assert(now[b] == prev[b - 1]);
                    }
                }
                assert forall|x: Seq<u8>| now.to_set().contains(x) <==> prev.to_set().insert(k).contains(x) by {
                    if now.contains(x) {
                        let j = choose|j: int| 0 <= j < now.len() && now[j] == x;
                        if j < i {
                            assert(prev[j] == x);
                        } else if j > i {
                            assert(prev[j - 1] == x);
                        }
                    }
                    if prev.contains(x) {
                        let j = choose|j: int| 0 <= j < prev.len() && prev[j] == x;
                        if j < i {
                            assert(now[j] == x);
                        } else {
                            assert(now[j + 1] == x);
                        }
                    }
                    if x == k {
                        assert(now[i as int] == k);
                    }
                }
                assert(now.to_set() =~= prev.to_set().insert(k));
            }
        },
    }
}

} // verus!
