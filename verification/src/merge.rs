//! Combining two attribute sets: the concatenation of two sets with
//! distinct names, and the merge in which the right set wins.

use vstd::prelude::*;

use crate::attrset::{Attrset, has_name, lemma_lookup_at, lookup, name_index, names_of, pairs_view};
use crate::lex::{copy_bytes, keys_view, lemma_sorted_no_duplicates, sorted_insert, strictly_sorted, binary_search};
use crate::value::{Context, NixValue};

verus! {

/// A named value.
pub type Pair = (Seq<u8>, NixValue);

/// `has_name` is membership in the names.
pub proof fn lemma_has_name(attrs: Seq<Pair>, key: Seq<u8>)
    ensures
        has_name(attrs, key) <==> names_of(attrs).contains(key),
{
    if has_name(attrs, key) {
        let i = name_index(attrs, key);
        assert(names_of(attrs)[i] == key);
    }
    if names_of(attrs).contains(key) {
        let i = choose|i: int| 0 <= i < names_of(attrs).len() && names_of(attrs)[i] == key;
        assert(attrs[i].0 == key);
    }
}

/// The names of a list with one more attribute.
pub proof fn lemma_names_push(attrs: Seq<Pair>, a: Pair)
    ensures
        names_of(attrs.push(a)) == names_of(attrs).push(a.0),
{
    assert(names_of(attrs.push(a)) =~= names_of(attrs).push(a.0));
}

/// The attributes of `right` whose names `left` does not hold, in order.
pub open spec fn unshadowed(right: Seq<Pair>, left: Seq<Pair>) -> Seq<Pair>
    decreases right.len(),
{
    if right.len() == 0 {
        Seq::empty()
    } else {
        let rest = unshadowed(right.drop_last(), left);
        if has_name(left, right.last().0) {
            rest
        } else {
            rest.push(right.last())
        }
    }
}

/// The number of attributes of `attrs` whose names `other` holds.
pub open spec fn count_shadowed(attrs: Seq<Pair>, other: Seq<Pair>) -> nat
    decreases attrs.len(),
{
    if attrs.len() == 0 {
        0
    } else {
        count_shadowed(attrs.drop_last(), other) + if has_name(other, attrs.last().0) {
            1nat
        } else {
            0nat
        }
    }
}

/// The names both lists hold.
pub open spec fn common_names(left: Seq<Pair>, right: Seq<Pair>) -> Set<Seq<u8>> {
    names_of(left).to_set().intersect(names_of(right).to_set())
}

/// The attribute `a` of the left set, with its value taken from `right` if
/// `right` holds its name.
pub open spec fn overridden(a: Pair, right: Seq<Pair>) -> Pair {
    match lookup(right, a.0) {
        Some(v) => (a.0, v),
        None => a,
    }
}

/// The attributes of the merge of `left` and `right`: those of `left`, in
/// order, with the values of `right` where `right` holds the same name,
/// then those of `right` whose names `left` does not hold.
pub open spec fn merged(left: Seq<Pair>, right: Seq<Pair>) -> Seq<Pair> {
    left.map_values(|a: Pair| overridden(a, right)) + unshadowed(right, left)
}

/// What is in `unshadowed(right, left)`: the attributes of `right` whose
/// names `left` does not hold. Its names are distinct if those of `right`
/// are, and it has one attribute less than `right` for each shadowed one.
pub proof fn lemma_unshadowed(right: Seq<Pair>, left: Seq<Pair>)
    requires
        names_of(right).no_duplicates(),
    ensures
        forall|x: Pair| #[trigger] unshadowed(right, left).contains(x) <==> (right.contains(x) && !has_name(left, x.0)),
        names_of(unshadowed(right, left)).no_duplicates(),
        unshadowed(right, left).len() + count_shadowed(right, left) == right.len(),
    decreases right.len(),
{
    if right.len() > 0 {
        let init = right.drop_last();
        let last = right.last();
        assert(right == init.push(last));
        lemma_names_push(init, last);
        assert(names_of(init) =~= names_of(right).drop_last());
        lemma_unshadowed(init, left);
        let rest = unshadowed(init, left);
        assert forall|x: Pair| #[trigger] unshadowed(right, left).contains(x) <==> (right.contains(x) && !has_name(left, x.0)) by {
            if right.contains(x) {
                let j = choose|j: int| 0 <= j < right.len() && right[j] == x;
                if j < init.len() {
                    assert(init[j] == x);
                }
            }
            if init.contains(x) {
                let j = choose|j: int| 0 <= j < init.len() && init[j] == x;
                assert(right[j] == x);
            }
            if !has_name(left, last.0) {
                assert(rest.push(last)[rest.len() as int] == last);
                if rest.push(last).contains(x) && x != last {
                    let j = choose|j: int| 0 <= j < rest.len() + 1 && rest.push(last)[j] == x;
                    assert(rest[j] == x);
                }
                if rest.contains(x) {
                    let j = choose|j: int| 0 <= j < rest.len() && rest[j] == x;
                    assert(rest.push(last)[j] == x);
                }
            }
        }
        if !has_name(left, last.0) {
            lemma_names_push(rest, last);
            assert forall|x: Pair| rest.contains(x) implies x.0 != last.0 by {
                let j = choose|j: int| 0 <= j < init.len() && init[j] == x;
                assert(names_of(right)[j] == x.0);
                assert(names_of(right)[init.len() as int] == last.0);
            }
            assert forall|i: int, j: int| 0 <= i < j < names_of(rest.push(last)).len() implies
                names_of(rest.push(last))[i] != names_of(rest.push(last))[j] by {
                if j == rest.len() {
                    assert(rest.contains(rest[i]));
                    assert(names_of(rest.push(last))[i] == rest[i].0);
                }
            }
        }
    }
}

/// The number of shadowed attributes is the number of common names.
pub proof fn lemma_count_shadowed(attrs: Seq<Pair>, other: Seq<Pair>)
    requires
        names_of(attrs).no_duplicates(),
    ensures
        count_shadowed(attrs, other) == common_names(attrs, other).len(),
        common_names(attrs, other).finite(),
    decreases attrs.len(),
{
    let o = names_of(other).to_set();
    if attrs.len() == 0 {
        assert(names_of(attrs).to_set() =~= Set::<Seq<u8>>::empty());
        assert(common_names(attrs, other) =~= Set::<Seq<u8>>::empty());
    } else {
        let init = attrs.drop_last();
        let last = attrs.last();
        assert(attrs == init.push(last));
        lemma_names_push(init, last);
        assert(names_of(init) =~= names_of(attrs).drop_last());
        lemma_count_shadowed(init, other);
        let before = common_names(init, other);
        names_of(init).lemma_push_to_set_commute(last.0);
        assert(names_of(attrs).to_set() == names_of(init).to_set().insert(last.0));
        assert(!names_of(init).contains(last.0)) by {
            if names_of(init).contains(last.0) {
                let j = choose|j: int| 0 <= j < names_of(init).len() && names_of(init)[j] == last.0;
                assert(names_of(attrs)[j] == names_of(attrs)[init.len() as int]);
            }
        }
        lemma_has_name(other, last.0);
        if has_name(other, last.0) {
            assert(common_names(attrs, other) =~= before.insert(last.0));
            assert(!before.contains(last.0));
        } else {
            assert(common_names(attrs, other) =~= before);
        }
    }
}

/// The names of a merge are distinct, and every value comes from one of the
/// two sets.
pub proof fn lemma_merged_names(left: Seq<Pair>, right: Seq<Pair>)
    requires
        names_of(left).no_duplicates(),
        names_of(right).no_duplicates(),
    ensures
        names_of(merged(left, right)).no_duplicates(),
        merged(left, right).len() + count_shadowed(right, left) == left.len() + right.len(),
        forall|i: int| 0 <= i < left.len() ==> #[trigger] merged(left, right)[i] == overridden(left[i], right),
        forall|i: int| 0 <= i < left.len() ==> #[trigger] merged(left, right)[i].0 == left[i].0,
{
    let m = merged(left, right);
    let lpart = left.map_values(|a: Pair| overridden(a, right));
    let rpart = unshadowed(right, left);
    lemma_unshadowed(right, left);
    assert forall|i: int| 0 <= i < left.len() implies #[trigger] m[i] == overridden(left[i], right) by {
        assert(m[i] == lpart[i]);
    }
    assert forall|i: int| 0 <= i < lpart.len() implies lpart[i].0 == left[i].0 by {
        if lookup(right, left[i].0) is Some {
        }
    }
    assert(names_of(lpart) =~= names_of(left));
    assert forall|i: int, j: int| 0 <= i < names_of(lpart).len() && 0 <= j < names_of(rpart).len()
        implies names_of(lpart)[i] != names_of(rpart)[j] by {
        assert(rpart.contains(rpart[j]));
        assert(names_of(left)[i] == left[i].0);
        if names_of(lpart)[i] == names_of(rpart)[j] {
            assert(has_name(left, rpart[j].0));
        }
    }
    vstd::seq_lib::lemma_no_dup_in_concat(names_of(lpart), names_of(rpart));
    assert(names_of(m) =~= names_of(lpart) + names_of(rpart));
}

/// A merge holds every name of the two sets once: as many attributes as
/// the two sets together, less those they have in common.
pub proof fn lemma_merge_len(left: Seq<Pair>, right: Seq<Pair>)
    requires
        names_of(left).no_duplicates(),
        names_of(right).no_duplicates(),
    ensures
        merged(left, right).len() == left.len() + right.len() - common_names(left, right).len(),
        names_of(merged(left, right)).to_set() == names_of(left).to_set().union(names_of(right).to_set()),
{
    lemma_merged_names(left, right);
    lemma_count_shadowed(right, left);
    lemma_unshadowed(right, left);
    assert(common_names(right, left) =~= common_names(left, right));
    let m = merged(left, right);
    assert forall|k: Seq<u8>| names_of(m).to_set().contains(k) <==> names_of(left).to_set().union(
        names_of(right).to_set(),
    ).contains(k) by {
        lemma_has_name(m, k);
        lemma_has_name(left, k);
        lemma_has_name(right, k);
        if has_name(m, k) {
            let i = name_index(m, k);
            if i >= left.len() {
                let rp = unshadowed(right, left);
                assert(m[i] == rp[i - left.len()]);
                assert(rp.contains(rp[i - left.len()]));
                let j = choose|j: int| 0 <= j < right.len() && right[j] == rp[i - left.len()];
                assert(right[j].0 == k);
            } else {
                assert(m[i].0 == left[i].0);
            }
        }
        if has_name(left, k) {
            let i = name_index(left, k);
            assert(m[i].0 == k);
        } else if has_name(right, k) {
            let j = name_index(right, k);
            let rp = unshadowed(right, left);
            assert(rp.contains(right[j]));
            let q = choose|q: int| 0 <= q < rp.len() && rp[q] == right[j];
            assert(m[left.len() + q] == rp[q]);
        }
    }
    assert(names_of(m).to_set() =~= names_of(left).to_set().union(names_of(right).to_set()));
}

/// A merge looks a name up in the right set first, then in the left one.
pub proof fn lemma_merge_lookup(left: Seq<Pair>, right: Seq<Pair>, key: Seq<u8>)
    requires
        names_of(left).no_duplicates(),
        names_of(right).no_duplicates(),
    ensures
        lookup(merged(left, right), key) == if has_name(right, key) {
            lookup(right, key)
        } else {
            lookup(left, key)
        },
{
    let m = merged(left, right);
    let rpart = unshadowed(right, left);
    lemma_merged_names(left, right);
    lemma_unshadowed(right, left);
    assert(names_of(m).no_duplicates());
    if has_name(left, key) {
        let i = name_index(left, key);
        lemma_lookup_at(left, i);
        lemma_lookup_at(m, i);
        if has_name(right, key) {
            let j = name_index(right, key);
            lemma_lookup_at(right, j);
        } else {
            assert(lookup(right, key) is None);
        }
    } else if has_name(right, key) {
        let j = name_index(right, key);
        lemma_lookup_at(right, j);
        assert(rpart.contains(right[j]));
        let k = choose|k: int| 0 <= k < rpart.len() && rpart[k] == right[j];
        assert(m[left.len() + k] == rpart[k]);
        lemma_lookup_at(m, left.len() + k);
    } else {
        assert forall|i: int| 0 <= i < m.len() implies (#[trigger] m[i]).0 != key by {
            if i < left.len() {
                assert(m[i].0 == left[i].0);
            } else {
                assert(m[i] == rpart[i - left.len()]);
                assert(rpart.contains(rpart[i - left.len()]));
            }
        }
    }
}

/// The attributes of the concatenation of two attribute sets.
pub open spec fn disjoint_names(left: Seq<Pair>, right: Seq<Pair>) -> bool {
    forall|i: int, j: int| 0 <= i < left.len() && 0 <= j < right.len() ==> left[i].0 != right[j].0
}

/// A concatenation of two attribute sets with distinct names looks a name
/// up in the set that holds it.
pub proof fn lemma_concat_lookup(left: Seq<Pair>, right: Seq<Pair>, key: Seq<u8>)
    requires
        names_of(left).no_duplicates(),
        names_of(right).no_duplicates(),
        disjoint_names(left, right),
    ensures
        names_of(left + right).no_duplicates(),
        lookup(left + right, key) == if has_name(left, key) {
            lookup(left, key)
        } else {
            lookup(right, key)
        },
{
    let c = left + right;
    assert(names_of(c) =~= names_of(left) + names_of(right));
    vstd::seq_lib::lemma_no_dup_in_concat(names_of(left), names_of(right));
    if has_name(left, key) {
        let i = name_index(left, key);
        lemma_lookup_at(left, i);
        lemma_lookup_at(c, i);
    } else if has_name(right, key) {
        let j = name_index(right, key);
        lemma_lookup_at(right, j);
        lemma_lookup_at(c, left.len() + j);
    } else {
        assert forall|i: int| 0 <= i < c.len() implies (#[trigger] c[i]).0 != key by {
            if i < left.len() {
                assert(c[i] == left[i]);
            } else {
                assert(c[i] == right[i - left.len()]);
            }
        }
    }
}

/// The concatenation of two attribute sets without common names.
pub struct Concat<L, R> {
    left: L,
    right: R,
}

impl<L: Attrset, R: Attrset> Concat<L, R> {
    /// The left attribute set.
    pub closed spec fn spec_left(&self) -> L {
        self.left
    }

    /// The right attribute set.
    pub closed spec fn spec_right(&self) -> R {
        self.right
    }

    /// The concatenation of `left` and `right`, which hold no name in
    /// common.
    pub fn new(left: L, right: R, ctx: &Context) -> (r: Self)
        requires
            ctx.wf(),
            left.attrset_wf(ctx),
            right.attrset_wf(ctx),
            disjoint_names(left.spec_attrs(ctx), right.spec_attrs(ctx)),
            left.spec_attrs(ctx).len() + right.spec_attrs(ctx).len() <= u32::MAX,
        ensures
            r.spec_left() == left,
            r.spec_right() == right,
            r.attrset_wf(ctx),
            r.spec_attrs(ctx) == left.spec_attrs(ctx) + right.spec_attrs(ctx),
    {
        Concat { left, right }
    }
}

impl<L: Attrset, R: Attrset> Attrset for Concat<L, R> {
    /// The attributes of the left set, then those of the right one.
    open spec fn spec_attrs(&self, ctx: &Context) -> Seq<(Seq<u8>, NixValue)> {
        self.spec_left().spec_attrs(ctx) + self.spec_right().spec_attrs(ctx)
    }

    open spec fn attrset_wf(&self, ctx: &Context) -> bool {
        &&& self.spec_left().attrset_wf(ctx)
        &&& self.spec_right().attrset_wf(ctx)
        &&& disjoint_names(self.spec_left().spec_attrs(ctx), self.spec_right().spec_attrs(ctx))
        &&& self.spec_left().spec_attrs(ctx).len() + self.spec_right().spec_attrs(ctx).len() <= u32::MAX
    }

    proof fn lemma_attrs_wf(&self, ctx: &Context) {
        let l = self.left.spec_attrs(ctx);
        let r = self.right.spec_attrs(ctx);
        self.left.lemma_attrs_wf(ctx);
        self.right.lemma_attrs_wf(ctx);
        lemma_concat_lookup(l, r, Seq::empty());
        let c = l + r;
        assert forall|i: int| #![trigger c[i]] 0 <= i < c.len() implies crate::value::valid_name(c[i].0) && ctx.holds(c[i].1) by {
            if i < l.len() {
                assert(c[i] == l[i]);
            } else {
                assert(c[i] == r[i - l.len()]);
            }
        }
    }

    fn len(&self, ctx: &Context) -> (r: u32) {
        self.left.len(ctx) + self.right.len(ctx)
    }

    fn pairs(&self, ctx: &Context) -> (r: Vec<(Vec<u8>, NixValue)>) {
        let mut out = self.left.pairs(ctx);
        let mut rest = self.right.pairs(ctx);
        let ghost a = out@;
        let ghost b = rest@;
        out.append(&mut rest);
        assert(pairs_view(out@) =~= pairs_view(a) + pairs_view(b));
        out
    }

    fn with_value(&self, key: &[u8], ctx: &Context) -> (r: Option<NixValue>) {
        proof {
            self.left.lemma_attrs_wf(ctx);
            self.right.lemma_attrs_wf(ctx);
            lemma_concat_lookup(self.left.spec_attrs(ctx), self.right.spec_attrs(ctx), key@);
        }
        if self.left.contains_key(key, ctx) {
            self.left.with_value(key, ctx)
        } else {
            self.right.with_value(key, ctx)
        }
    }
}

/// The merge of two attribute sets, in which the right one wins.
pub struct Merge<L, R> {
    left: L,
    right: R,
    /// The names both sets hold, in ascending order.
    conflicts: Vec<Vec<u8>>,
}

/// Collects, in ascending order, the names of `pairs` that `other` holds.
fn collect_conflicts<S: Attrset>(pairs: &Vec<(Vec<u8>, NixValue)>, other: &S, ctx: &Context) -> (r: Vec<Vec<u8>>)
    requires
        ctx.wf(),
        other.attrset_wf(ctx),
        names_of(pairs_view(pairs@)).no_duplicates(),
    ensures
        strictly_sorted(keys_view(r@)),
        keys_view(r@).to_set() == common_names(pairs_view(pairs@), other.spec_attrs(ctx)),
{
    let ghost attrs = pairs_view(pairs@);
    let ghost theirs = names_of(other.spec_attrs(ctx)).to_set();
    let mut conflicts: Vec<Vec<u8>> = Vec::new();
    let mut i: usize = 0;
    assert(names_of(attrs.take(0)).to_set() =~= Set::<Seq<u8>>::empty());
    assert(keys_view(conflicts@).to_set() =~= Set::<Seq<u8>>::empty());
    while i < pairs.len()
        invariant
            ctx.wf(),
            other.attrset_wf(ctx),
            attrs == pairs_view(pairs@),
            theirs == names_of(other.spec_attrs(ctx)).to_set(),
            names_of(attrs).no_duplicates(),
            0 <= i <= pairs@.len(),
            strictly_sorted(keys_view(conflicts@)),
            keys_view(conflicts@).to_set() == names_of(attrs.take(i as int)).to_set().intersect(theirs),
        decreases pairs@.len() - i,
    {
        let ghost key = attrs[i as int].0;
        proof {
            assert(attrs.take(i + 1) =~= attrs.take(i as int).push(attrs[i as int]));
            lemma_names_push(attrs.take(i as int), attrs[i as int]);
            names_of(attrs.take(i as int)).lemma_push_to_set_commute(key);
            lemma_has_name(other.spec_attrs(ctx), key);
        }
        if other.contains_key(pairs[i].0.as_slice(), ctx) {
            proof {
                if keys_view(conflicts@).contains(key) {
                    assert(keys_view(conflicts@).to_set().contains(key));
                    assert(names_of(attrs.take(i as int)).contains(key));
                    let j = choose|j: int| 0 <= j < i && names_of(attrs.take(i as int))[j] == key;
                    assert(names_of(attrs)[j] == names_of(attrs)[i as int]);
                }
            }
            let name = copy_bytes(&pairs[i].0);
            sorted_insert(&mut conflicts, name);
            proof {
                assert(keys_view(conflicts@).to_set() =~= names_of(attrs.take(i + 1)).to_set().intersect(theirs));
            }
        } else {
            proof {
                assert(keys_view(conflicts@).to_set() =~= names_of(attrs.take(i + 1)).to_set().intersect(theirs));
            }
        }
        i = i + 1;
    }
    assert(attrs.take(i as int) =~= attrs);
    conflicts
}

impl<L: Attrset, R: Attrset> Merge<L, R> {
    /// The left attribute set.
    pub closed spec fn spec_left(&self) -> L {
        self.left
    }

    /// The right attribute set.
    pub closed spec fn spec_right(&self) -> R {
        self.right
    }

    /// The names both sets hold, in ascending order.
    pub closed spec fn spec_conflicts(&self) -> Seq<Seq<u8>> {
        keys_view(self.conflicts@)
    }

    /// The merge of `left` and `right`, in which `right` wins.
    pub fn new(left: L, right: R, ctx: &Context) -> (r: Self)
        requires
            ctx.wf(),
            left.attrset_wf(ctx),
            right.attrset_wf(ctx),
            merged(left.spec_attrs(ctx), right.spec_attrs(ctx)).len() <= u32::MAX,
        ensures
            r.spec_left() == left,
            r.spec_right() == right,
            r.attrset_wf(ctx),
            r.spec_attrs(ctx) == merged(left.spec_attrs(ctx), right.spec_attrs(ctx)),
    {
        let conflicts = Self::init_conflicts(&left, &right, ctx);
        Merge { left, right, conflicts }
    }

    /// The names both sets hold, in ascending order, found by looking the
    /// names of the smaller set up in the larger one.
    fn init_conflicts(left: &L, right: &R, ctx: &Context) -> (r: Vec<Vec<u8>>)
        requires
            ctx.wf(),
            left.attrset_wf(ctx),
            right.attrset_wf(ctx),
        ensures
            strictly_sorted(keys_view(r@)),
            keys_view(r@).to_set() == common_names(left.spec_attrs(ctx), right.spec_attrs(ctx)),
    {
        proof {
            left.lemma_attrs_wf(ctx);
            right.lemma_attrs_wf(ctx);
        }
        if left.len(ctx) <= right.len(ctx) {
            let pairs = left.pairs(ctx);
            collect_conflicts(&pairs, right, ctx)
        } else {
            let pairs = right.pairs(ctx);
            let r = collect_conflicts(&pairs, left, ctx);
            assert(common_names(right.spec_attrs(ctx), left.spec_attrs(ctx))
                =~= common_names(left.spec_attrs(ctx), right.spec_attrs(ctx)));
            r
        }
    }

    /// Whether both sets hold the name `key`.
    fn is_conflicting(&self, key: &[u8], ctx: &Context) -> (r: bool)
        requires
            ctx.wf(),
            self.attrset_wf(ctx),
        ensures
            r == common_names(self.spec_left().spec_attrs(ctx), self.spec_right().spec_attrs(ctx)).contains(key@),
    {
        match binary_search(&self.conflicts, key) {
            Ok(i) => {
                assert(keys_view(self.conflicts@)[i as int] == key@);
                true
            },
            Err(i) => {
                proof {
                    if keys_view(self.conflicts@).contains(key@) {
                        let j = choose|j: int| 0 <= j < self.conflicts@.len() && keys_view(self.conflicts@)[j] == key@;
                        crate::lex::lemma_lex_irreflexive(key@);
                    }
                }
                false
            },
        }
    }
}

impl<L: Attrset, R: Attrset> Attrset for Merge<L, R> {
    /// The attributes of the left set, with the values of the right one
    /// where both hold a name, then the other attributes of the right set.
    open spec fn spec_attrs(&self, ctx: &Context) -> Seq<(Seq<u8>, NixValue)> {
        merged(self.spec_left().spec_attrs(ctx), self.spec_right().spec_attrs(ctx))
    }

    open spec fn attrset_wf(&self, ctx: &Context) -> bool {
        &&& self.spec_left().attrset_wf(ctx)
        &&& self.spec_right().attrset_wf(ctx)
        &&& strictly_sorted(self.spec_conflicts())
        &&& self.spec_conflicts().to_set() == common_names(self.spec_left().spec_attrs(ctx), self.spec_right().spec_attrs(ctx))
        &&& merged(self.spec_left().spec_attrs(ctx), self.spec_right().spec_attrs(ctx)).len() <= u32::MAX
    }

    proof fn lemma_attrs_wf(&self, ctx: &Context) {
        let l = self.left.spec_attrs(ctx);
        let r = self.right.spec_attrs(ctx);
        self.left.lemma_attrs_wf(ctx);
        self.right.lemma_attrs_wf(ctx);
        lemma_merged_names(l, r);
        lemma_unshadowed(r, l);
        let m = merged(l, r);
        assert forall|i: int| #![trigger m[i]] 0 <= i < m.len() implies crate::value::valid_name(m[i].0) && ctx.holds(m[i].1) by {
            if i < l.len() {
                assert(m[i] == overridden(l[i], r));
                assert(crate::value::valid_name(l[i].0) && ctx.holds(l[i].1));
                if has_name(r, l[i].0) {
                    let j = name_index(r, l[i].0);
                    lemma_lookup_at(r, j);
                    assert(ctx.holds(r[j].1));
                }
            } else {
                let rp = unshadowed(r, l);
                assert(m[i] == rp[i - l.len()]);
                assert(rp.contains(rp[i - l.len()]));
                let j = choose|j: int| 0 <= j < r.len() && r[j] == rp[i - l.len()];
                assert(crate::value::valid_name(r[j].0) && ctx.holds(r[j].1));
            }
        }
    }

    fn len(&self, ctx: &Context) -> (r: u32) {
        let l = self.left.len(ctx) as u64;
        let r = self.right.len(ctx) as u64;
        let c = self.conflicts.len() as u64;
        proof {
            let ls = self.left.spec_attrs(ctx);
            let rs = self.right.spec_attrs(ctx);
            self.left.lemma_attrs_wf(ctx);
            self.right.lemma_attrs_wf(ctx);
            lemma_merged_names(ls, rs);
            lemma_count_shadowed(rs, ls);
            assert(common_names(rs, ls) =~= common_names(ls, rs));
            lemma_sorted_no_duplicates(keys_view(self.conflicts@));
            keys_view(self.conflicts@).unique_seq_to_set();
        }
        (l + r - c) as u32
    }

    fn pairs(&self, ctx: &Context) -> (r: Vec<(Vec<u8>, NixValue)>) {
        let ghost ls = self.left.spec_attrs(ctx);
        let ghost rs = self.right.spec_attrs(ctx);
        proof {
            self.left.lemma_attrs_wf(ctx);
            self.right.lemma_attrs_wf(ctx);
        }
        let ghost lpart = ls.map_values(|a: Pair| overridden(a, rs));
        let lp = self.left.pairs(ctx);
        let mut out: Vec<(Vec<u8>, NixValue)> = Vec::new();
        let mut i: usize = 0;
        while i < lp.len()
            invariant
                ctx.wf(),
                self.attrset_wf(ctx),
                ls == self.spec_left().spec_attrs(ctx),
                rs == self.spec_right().spec_attrs(ctx),
                lpart == ls.map_values(|a: Pair| overridden(a, rs)),
                pairs_view(lp@) == ls,
                names_of(ls).no_duplicates(),
                0 <= i <= lp@.len(),
                pairs_view(out@) == lpart.take(i as int),
            decreases lp@.len() - i,
        {
            let name = copy_bytes(&lp[i].0);
            let ghost prev = out@;
            let ghost a = ls[i as int];
            proof {
                lemma_has_name(ls, a.0);
                assert(ls.contains(a));
                assert(names_of(ls)[i as int] == a.0);
            }
            if self.is_conflicting(lp[i].0.as_slice(), ctx) {
                match self.right.with_value(lp[i].0.as_slice(), ctx) {
                    Some(w) => out.push((name, w)),
                    None => out.push((name, lp[i].1)),
                }
            } else {
                proof {
                    lemma_has_name(rs, a.0);
                }
                out.push((name, lp[i].1));
            }
            proof {
                lemma_has_name(rs, a.0);
                assert(lpart[i as int] == overridden(a, rs));
                assert(pairs_view(out@) =~= pairs_view(prev).push(lpart[i as int]));
                assert(lpart.take(i + 1) =~= lpart.take(i as int).push(lpart[i as int]));
            }
            i = i + 1;
        }
        assert(lpart.take(i as int) =~= lpart);
        let rp = self.right.pairs(ctx);
        let mut j: usize = 0;
        assert(unshadowed(rs.take(0), ls) =~= Seq::<Pair>::empty());
        assert(pairs_view(out@) =~= lpart + unshadowed(rs.take(0), ls));
        while j < rp.len()
            invariant
                ctx.wf(),
                self.attrset_wf(ctx),
                ls == self.spec_left().spec_attrs(ctx),
                rs == self.spec_right().spec_attrs(ctx),
                pairs_view(rp@) == rs,
                0 <= j <= rp@.len(),
                pairs_view(out@) == lpart + unshadowed(rs.take(j as int), ls),
            decreases rp@.len() - j,
        {
            let ghost prev = out@;
            let ghost b = rs[j as int];
            proof {
                assert(rs.take(j + 1).drop_last() =~= rs.take(j as int));
                assert(rs.take(j + 1).last() == b);
                lemma_has_name(ls, b.0);
                lemma_has_name(rs, b.0);
                assert(rs.contains(b));
                assert(names_of(rs)[j as int] == b.0);
            }
            if !self.is_conflicting(rp[j].0.as_slice(), ctx) {
                let name = copy_bytes(&rp[j].0);
                out.push((name, rp[j].1));
                proof {
                    assert(pairs_view(out@) =~= pairs_view(prev).push(b));
                }
            }
            j = j + 1;
        }
        assert(rs.take(j as int) =~= rs);
        out
    }

    fn with_value(&self, key: &[u8], ctx: &Context) -> (r: Option<NixValue>) {
        proof {
            self.left.lemma_attrs_wf(ctx);
            self.right.lemma_attrs_wf(ctx);
            lemma_merge_lookup(self.left.spec_attrs(ctx), self.right.spec_attrs(ctx), key@);
        }
        if self.right.contains_key(key, ctx) {
            self.right.with_value(key, ctx)
        } else {
            self.left.with_value(key, ctx)
        }
    }
}

} // verus!
