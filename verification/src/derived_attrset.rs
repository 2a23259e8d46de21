//! Attribute sets made from the fields of a struct: the keys and the fields
//! that may be skipped, as the attribute-set derive lays them out, and the
//! attribute set of a value of such a struct, which holds each field that
//! is not skipped.

use vstd::prelude::*;

use crate::attrset::{Attrset, attrs_wf, has_name, lemma_lookup_at, lookup, names_of, pairs_view};
use crate::lex::{KeyOrder, compare_bytes, copy_bytes, keys_view, lemma_lex_irreflexive};
use crate::value::{Context, NixValue, valid_name};

verus! {

/// A field of a struct that derives an attribute set: the key it is written
/// under, and whether it has a condition under which it is skipped.
pub struct DerivedField {
    pub key_name: String,
    pub has_skip: bool,
}

/// The layout of a derived attribute set: the keys of the fields, in order,
/// and the positions of the fields that might be skipped, in order.
pub struct DerivedAttrsetPlan {
    pub keys: Vec<String>,
    pub might_skip: Vec<u32>,
}

/// The keys of the fields.
pub open spec fn keys_of(fields: Seq<DerivedField>) -> Seq<Seq<char>> {
    fields.map_values(|f: DerivedField| f.key_name@)
}

/// The positions of the fields, among the first `n`, that might be skipped.
pub open spec fn skip_indices(fields: Seq<DerivedField>, n: int) -> Seq<u32>
    decreases n,
{
    if n <= 0 {
        Seq::empty()
    } else if fields[n - 1].has_skip {
        skip_indices(fields, n - 1).push((n - 1) as u32)
    } else {
        skip_indices(fields, n - 1)
    }
}

/// The views of strings.
pub open spec fn strings_view(v: Seq<String>) -> Seq<Seq<char>> {
    v.map_values(|s: String| s@)
}

/// The layout of the attribute set derived for a struct with the fields
/// `fields`: their keys, and the positions of those with a skip condition.
pub fn derived_attrset_plan(fields: &Vec<DerivedField>) -> (r: DerivedAttrsetPlan)
    requires
        fields@.len() <= u32::MAX,
    ensures
        strings_view(r.keys@) == keys_of(fields@),
        r.might_skip@ == skip_indices(fields@, fields@.len() as int),
{
    let mut keys: Vec<String> = Vec::new();
    let mut might_skip: Vec<u32> = Vec::new();
    let mut i: usize = 0;
    while i < fields.len()
        invariant
            fields@.len() <= u32::MAX,
            0 <= i <= fields@.len(),
            strings_view(keys@) == keys_of(fields@).take(i as int),
            might_skip@ == skip_indices(fields@, i as int),
        decreases fields@.len() - i,
    {
        let key = fields[i].key_name.clone();
        assert(key@ == fields@[i as int].key_name@);
        let ghost prev = keys@;
        keys.push(key);
        assert(strings_view(keys@) =~= strings_view(prev).push(fields@[i as int].key_name@));
        assert(keys_of(fields@).take(i + 1) =~= keys_of(fields@).take(i as int).push(fields@[i as int].key_name@));
        if fields[i].has_skip {
            might_skip.push(i as u32);
        }
        i = i + 1;
    }
    assert(keys_of(fields@).take(i as int) =~= keys_of(fields@));
    DerivedAttrsetPlan { keys, might_skip }
}

/// The attributes of the fields that are not skipped, among the first ones
/// up to the length of `keys`: each key with the value of its field.
pub open spec fn kept_attrs(keys: Seq<Seq<u8>>, values: Seq<NixValue>, skip: Seq<bool>) -> Seq<(Seq<u8>, NixValue)>
    decreases keys.len(),
{
    if keys.len() == 0 {
        Seq::empty()
    } else {
        let n = keys.len() - 1;
        kept_attrs(keys.take(n), values.take(n), skip.take(n)) + if skip[n] {
            Seq::empty()
        } else {
            seq![(keys[n], values[n])]
        }
    }
}

/// What the attributes of the fields that are not skipped are: each is the
/// key and value of such a field, every such field has one, and their names
/// are distinct when the keys are.
pub proof fn lemma_kept_attrs(keys: Seq<Seq<u8>>, values: Seq<NixValue>, skip: Seq<bool>)
    requires
        keys.len() <= values.len(),
        keys.len() <= skip.len(),
    ensures
        kept_attrs(keys, values, skip).len() <= keys.len(),
        forall|t: int| 0 <= t < kept_attrs(keys, values, skip).len() ==> exists|j: int|
            0 <= j < keys.len() && !skip[j] && #[trigger] kept_attrs(keys, values, skip)[t] == (keys[j], values[j]),
        forall|j: int| 0 <= j < keys.len() && !skip[j] ==> exists|t: int|
            0 <= t < kept_attrs(keys, values, skip).len() && #[trigger] kept_attrs(keys, values, skip)[t] == (
                #[trigger] keys[j],
                values[j],
            ),
        keys.no_duplicates() ==> names_of(kept_attrs(keys, values, skip)).no_duplicates(),
    decreases keys.len(),
{
    if keys.len() > 0 {
        let n = keys.len() - 1;
        let k0 = keys.take(n);
        let v0 = values.take(n);
        let s0 = skip.take(n);
        lemma_kept_attrs(k0, v0, s0);
        let prev = kept_attrs(k0, v0, s0);
        let now = kept_attrs(keys, values, skip);
        assert forall|t: int| 0 <= t < now.len() implies exists|j: int|
            0 <= j < keys.len() && !skip[j] && #[trigger] now[t] == (keys[j], values[j]) by {
            if t < prev.len() {
                assert(now[t] == prev[t]);
                let j = choose|j: int| 0 <= j < k0.len() && !s0[j] && #[trigger] prev[t] == (k0[j], v0[j]);
                assert(k0[j] == keys[j] && v0[j] == values[j] && s0[j] == skip[j]);
            } else {
                assert(now[t] == (keys[n], values[n]));
            }
        }
        assert forall|j: int| 0 <= j < keys.len() && !skip[j] implies exists|t: int|
            0 <= t < now.len() && #[trigger] now[t] == (#[trigger] keys[j], values[j]) by {
            if j < n {
                assert(k0[j] == keys[j] && v0[j] == values[j] && s0[j] == skip[j]);
                let t = choose|t: int| 0 <= t < prev.len() && #[trigger] prev[t] == (#[trigger] k0[j], v0[j]);
                assert(now[t] == prev[t]);
            } else {
                assert(now[prev.len() as int] == (keys[n], values[n]));
            }
        }
        if keys.no_duplicates() {
            assert(k0.no_duplicates()) by {
                assert forall|a: int, b: int| 0 <= a < k0.len() && 0 <= b < k0.len() && a != b implies k0[a] != k0[b] by {
                    assert(k0[a] == keys[a] && k0[b] == keys[b]);
                }
            }
            if !skip[n] {
                let names = names_of(now);
                assert forall|a: int, b: int| 0 <= a < names.len() && 0 <= b < names.len() && a != b implies names[a]
                    != names[b] by {
                    if a < prev.len() && b < prev.len() {
                        assert(names[a] == names_of(prev)[a] && names[b] == names_of(prev)[b]);
                    } else {
                        let t = if a < prev.len() { a } else { b };
                        assert(t < prev.len());
                        let j = choose|j: int| 0 <= j < k0.len() && !s0[j] && #[trigger] prev[t] == (k0[j], v0[j]);
                        assert(now[t] == prev[t]);
                        assert(k0[j] == keys[j]);
                        assert(now[prev.len() as int] == (keys[n], values[n]));
                    }
                }
            } else {
                assert(now =~= prev);
            }
        }
    }
}

/// The attribute set of a value of a struct that derives one: the keys of
/// its fields, the positions of those that might be skipped, whether each
/// of those is skipped for this value, and the value of each field.
pub struct DerivedAttrset {
    keys: Vec<Vec<u8>>,
    might_skip: Vec<u32>,
    skipped: Vec<bool>,
    values: Vec<NixValue>,
}

impl DerivedAttrset {
    /// The keys.
    pub closed spec fn spec_keys(&self) -> Seq<Seq<u8>> {
        keys_view(self.keys@)
    }

    /// The values of the fields.
    pub closed spec fn spec_values(&self) -> Seq<NixValue> {
        self.values@
    }

    /// There is a value and a skip flag for each key.
    pub closed spec fn lengths_agree(&self) -> bool {
        &&& self.keys@.len() == self.values@.len()
        &&& self.keys@.len() == self.skipped@.len()
    }

    /// Whether each field is skipped: it might be, and for this value it is.
    pub closed spec fn spec_skip(&self) -> Seq<bool> {
        Seq::new(self.keys@.len(), |i: int| self.might_skip@.contains(i as u32) && self.skipped@[i])
    }

    /// The attribute set of the fields with the keys `keys` and the values
    /// `values`; those at the positions `might_skip` are skipped where
    /// `skipped` says so.
    pub fn new(keys: Vec<Vec<u8>>, might_skip: Vec<u32>, skipped: Vec<bool>, values: Vec<NixValue>) -> (r: DerivedAttrset)
        requires
            keys@.len() == skipped@.len(),
            keys@.len() == values@.len(),
        ensures
            r.lengths_agree(),
            r.spec_keys() == keys_view(keys@),
            r.spec_values() == values@,
            r.spec_skip() == Seq::new(keys@.len(), |i: int| might_skip@.contains(i as u32) && skipped@[i]),
    {
        DerivedAttrset { keys, might_skip, skipped, values }
    }

    /// Whether the field at `i` is skipped.
    fn should_skip(&self, i: usize) -> (r: bool)
        requires
            i < self.keys@.len(),
            self.keys@.len() <= u32::MAX,
            self.lengths_agree(),
        ensures
            r == self.spec_skip()[i as int],
    {
        let mut k: usize = 0;
        while k < self.might_skip.len()
            invariant
                i < self.keys@.len(),
                self.keys@.len() <= u32::MAX,
                self.lengths_agree(),
                0 <= k <= self.might_skip@.len(),
                forall|m: int| 0 <= m < k ==> self.might_skip@[m] != i as u32,
            decreases self.might_skip@.len() - k,
        {
            if self.might_skip[k] == i as u32 {
                assert(self.might_skip@.contains(i as u32));
                return self.skipped[i];
            }
            k = k + 1;
        }
        assert(!self.might_skip@.contains(i as u32));
        false
    }
}

impl Attrset for DerivedAttrset {
    open spec fn spec_attrs(&self, ctx: &Context) -> Seq<(Seq<u8>, NixValue)> {
        kept_attrs(self.spec_keys(), self.spec_values(), self.spec_skip())
    }

    open spec fn attrset_wf(&self, ctx: &Context) -> bool {
        &&& self.lengths_agree()
        &&& self.spec_keys().len() <= u32::MAX
        &&& self.spec_keys().no_duplicates()
        &&& forall|i: int| 0 <= i < self.spec_keys().len() ==> valid_name(#[trigger] self.spec_keys()[i])
        &&& forall|i: int| 0 <= i < self.spec_keys().len() ==> ctx.holds(#[trigger] self.spec_values()[i])
    }

    proof fn lemma_attrs_wf(&self, ctx: &Context) {
        let a = self.spec_attrs(ctx);
        lemma_kept_attrs(self.spec_keys(), self.spec_values(), self.spec_skip());
        assert forall|t: int| 0 <= t < a.len() implies valid_name(#[trigger] a[t].0) && ctx.holds(a[t].1) by {
            let j = choose|j: int| 0 <= j < self.spec_keys().len() && !self.spec_skip()[j] && #[trigger] a[t] == (
                self.spec_keys()[j],
                self.spec_values()[j],
            );
        }
        assert(attrs_wf(ctx, a));
    }

    fn len(&self, ctx: &Context) -> (r: u32) {
        proof {
            lemma_kept_attrs(self.spec_keys(), self.spec_values(), self.spec_skip());
        }
        let mut count: u32 = 0;
        let mut i: usize = 0;
        while i < self.keys.len()
            invariant
                self.attrset_wf(ctx),
                0 <= i <= self.keys@.len(),
                count == kept_attrs(self.spec_keys().take(i as int), self.spec_values().take(i as int), self.spec_skip().take(i as int)).len(),
            decreases self.keys@.len() - i,
        {
            proof {
                let k = self.spec_keys().take(i + 1);
                assert(k.take(i as int) =~= self.spec_keys().take(i as int));
                assert(self.spec_values().take(i + 1).take(i as int) =~= self.spec_values().take(i as int));
                assert(self.spec_skip().take(i + 1).take(i as int) =~= self.spec_skip().take(i as int));
                lemma_kept_attrs(k, self.spec_values().take(i + 1), self.spec_skip().take(i + 1));
            }
            if !self.should_skip(i) {
                count = count + 1;
            }
            i = i + 1;
        }
        proof {
            assert(self.spec_keys().take(i as int) =~= self.spec_keys());
            assert(self.spec_values().take(i as int) =~= self.spec_values());
            assert(self.spec_skip().take(i as int) =~= self.spec_skip());
        }
        count
    }

    fn pairs(&self, ctx: &Context) -> (r: Vec<(Vec<u8>, NixValue)>) {
        let mut out: Vec<(Vec<u8>, NixValue)> = Vec::new();
        let mut i: usize = 0;
        while i < self.keys.len()
            invariant
                self.attrset_wf(ctx),
                0 <= i <= self.keys@.len(),
                pairs_view(out@) == kept_attrs(
                    self.spec_keys().take(i as int),
                    self.spec_values().take(i as int),
                    self.spec_skip().take(i as int),
                ),
            decreases self.keys@.len() - i,
        {
            proof {
                let k = self.spec_keys().take(i + 1);
                assert(k.take(i as int) =~= self.spec_keys().take(i as int));
                assert(self.spec_values().take(i + 1).take(i as int) =~= self.spec_values().take(i as int));
                assert(self.spec_skip().take(i + 1).take(i as int) =~= self.spec_skip().take(i as int));
            }
            if !self.should_skip(i) {
                let ghost prev = out@;
                let name = copy_bytes(&self.keys[i]);
                out.push((name, self.values[i]));
                assert(pairs_view(out@) =~= pairs_view(prev).push((self.spec_keys()[i as int], self.spec_values()[i as int])));
            }
            i = i + 1;
        }
        proof {
            assert(self.spec_keys().take(i as int) =~= self.spec_keys());
            assert(self.spec_values().take(i as int) =~= self.spec_values());
            assert(self.spec_skip().take(i as int) =~= self.spec_skip());
        }
        out
    }

    fn with_value(&self, key: &[u8], ctx: &Context) -> (r: Option<NixValue>) {
        let ghost keys = self.spec_keys();
        let ghost a = self.spec_attrs(ctx);
        proof {
            lemma_kept_attrs(keys, self.spec_values(), self.spec_skip());
        }
        let mut i: usize = 0;
        while i < self.keys.len()
            invariant
                self.attrset_wf(ctx),
                keys == self.spec_keys(),
                a == self.spec_attrs(ctx),
                0 <= i <= self.keys@.len(),
                forall|j: int| 0 <= j < i ==> keys[j] != key@,
            decreases self.keys@.len() - i,
        {
            match compare_bytes(self.keys[i].as_slice(), key) {
                KeyOrder::Equal => {
                    proof {
                        lemma_kept_attrs(keys, self.spec_values(), self.spec_skip());
                        assert(keys[i as int] == key@);
                        if has_name(a, key@) {
                            let t = choose|t: int| 0 <= t < a.len() && (#[trigger] a[t]).0 == key@;
                            let j = choose|j: int| 0 <= j < keys.len() && !self.spec_skip()[j] && #[trigger] a[t] == (
                                keys[j],
                                self.spec_values()[j],
                            );
                            assert(j == i);
                        }
                    }
                    if self.should_skip(i) {
                        return None;
                    } else {
                        proof {
                            let t = choose|t: int| 0 <= t < a.len() && #[trigger] a[t] == (#[trigger] keys[i as int], self.spec_values()[i as int]);
                            lemma_lookup_at(a, t);
                        }
                        return Some(self.values[i]);
                    }
                },
                _ => {
                    proof {
                        lemma_lex_irreflexive(key@);
                    }
                },
            }
            i = i + 1;
        }
        proof {
            lemma_kept_attrs(keys, self.spec_values(), self.spec_skip());
            if has_name(a, key@) {
                let t = choose|t: int| 0 <= t < a.len() && (#[trigger] a[t]).0 == key@;
                let j = choose|j: int| 0 <= j < keys.len() && !self.spec_skip()[j] && #[trigger] a[t] == (
                    keys[j],
                    self.spec_values()[j],
                );
            }
        }
        None
    }
}

} // verus!
