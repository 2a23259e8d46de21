//! Building attribute sets and lists in the heap, and writing any attribute
//! set or list there.

use vstd::prelude::*;

use crate::attrset::{Attrset, NixAttrset, attrs_wf, names_of, pairs_view};
use crate::list::{List, NixList};
use crate::value::{
    Attr, Context, NixValue, Node, SpecNode, attr_names, attrs_view, items_view, lemma_nix_value_at,
    valid_name,
};

verus! {

/// An attribute set being built: the attributes inserted so far.
pub struct AttrsetBuilder {
    attrs: Vec<Attr>,
}

/// The view of attributes as named values.
pub open spec fn attr_pairs(attrs: Seq<Attr>) -> Seq<(Seq<u8>, NixValue)> {
    attrs.map_values(|a: Attr| (a.name@, a.value))
}

impl AttrsetBuilder {
    /// The attributes inserted so far.
    pub closed spec fn spec_attrs(&self) -> Seq<(Seq<u8>, NixValue)> {
        attr_pairs(self.attrs@)
    }

    /// A builder with no attribute, with room for `capacity` of them.
    pub fn new(capacity: usize) -> (r: AttrsetBuilder)
        ensures
            r.spec_attrs() == Seq::<(Seq<u8>, NixValue)>::empty(),
    {
        let attrs: Vec<Attr> = Vec::with_capacity(capacity);
        assert(attr_pairs(attrs@) =~= Seq::empty());
        AttrsetBuilder { attrs }
    }

    /// Adds the attribute `key` with the value `value`.
    pub fn insert(&mut self, key: Vec<u8>, value: NixValue, ctx: &Context)
        requires
            attrs_wf(ctx, old(self).spec_attrs()),
            valid_name(key@),
            !names_of(old(self).spec_attrs()).contains(key@),
            ctx.holds(value),
            old(self).spec_attrs().len() < u32::MAX,
        ensures
            final(self).spec_attrs() == old(self).spec_attrs().push((key@, value)),
            attrs_wf(ctx, final(self).spec_attrs()),
    {
        let ghost prev = self.spec_attrs();
        let ghost k = key@;
        self.attrs.push(Attr { name: key, value });
        proof {
            assert(self.spec_attrs() =~= prev.push((k, value)));
            assert(names_of(self.spec_attrs()) =~= names_of(prev).push(k));
        }
    }

    /// Stores the attribute set in the heap, returning the value pointing to
    /// it.
    pub fn build(self, ctx: &mut Context) -> (r: NixValue)
        requires
            old(ctx).wf(),
            attrs_wf(old(ctx), self.spec_attrs()),
            old(ctx).heap().len() < usize::MAX,
        ensures
            final(ctx).wf(),
            final(ctx).heap().len() == old(ctx).heap().len() + 1,
            final(ctx).heap().take(old(ctx).heap().len() as int) == old(ctx).heap(),
            final(ctx).spec_builtins() == old(ctx).spec_builtins(),
            r.index() == old(ctx).heap().len(),
            final(ctx).node(r) is Attrset,
            crate::attrset::node_attrs(final(ctx), r) == self.spec_attrs(),
    {
        let ghost attrs = self.spec_attrs();
        let ghost at = ctx.heap().len() as int;
        let node = Node::Attrset(self.attrs);
        proof {
            let raw = attrs_view(self.attrs@);
            assert forall|i: int| 0 <= i < raw.len() implies 0 <= #[trigger] raw[i].1 < at by {
                assert(ctx.holds(attrs[i].1));
            }
            assert forall|i: int| 0 <= i < raw.len() implies valid_name(#[trigger] raw[i].0) by {
                assert(valid_name(attrs[i].0));
            }
            assert(attr_names(raw) =~= names_of(attrs));
        }
        let r = ctx.alloc_value(node);
        proof {
            let raw = attrs_view(self.attrs@);
            assert(ctx.node(r) == SpecNode::Attrset(raw));
            let na = crate::attrset::node_attrs(ctx, r);
            assert forall|i: int| 0 <= i < na.len() implies na[i] == attrs[i] by {
                lemma_nix_value_at(self.attrs@[i].value);
            }
            assert(na =~= attrs);
            assert(ctx.heap().take(at) =~= old(ctx).heap());
        }
        r
    }
}

/// A list being built: the items inserted so far.
pub struct ListBuilder {
    items: Vec<NixValue>,
}

impl ListBuilder {
    /// The items inserted so far.
    pub closed spec fn spec_items(&self) -> Seq<NixValue> {
        self.items@
    }

    /// A builder with no item, with room for `capacity` of them.
    pub fn new(capacity: usize) -> (r: ListBuilder)
        ensures
            r.spec_items() == Seq::<NixValue>::empty(),
    {
        ListBuilder { items: Vec::with_capacity(capacity) }
    }

    /// Adds `value` at the end of the list.
    pub fn insert(&mut self, value: NixValue)
        requires
            old(self).spec_items().len() < u32::MAX,
        ensures
            final(self).spec_items() == old(self).spec_items().push(value),
    {
        self.items.push(value);
    }

    /// Stores the list in the heap, returning the value pointing to it.
    pub fn build(self, ctx: &mut Context) -> (r: NixValue)
        requires
            old(ctx).wf(),
            self.spec_items().len() <= u32::MAX,
            forall|i: int| 0 <= i < self.spec_items().len() ==> old(ctx).holds(#[trigger] self.spec_items()[i]),
            old(ctx).heap().len() < usize::MAX,
        ensures
            final(ctx).wf(),
            final(ctx).heap().len() == old(ctx).heap().len() + 1,
            final(ctx).heap().take(old(ctx).heap().len() as int) == old(ctx).heap(),
            final(ctx).spec_builtins() == old(ctx).spec_builtins(),
            r.index() == old(ctx).heap().len(),
            final(ctx).node(r) is List,
            crate::list::node_items(final(ctx), r) == self.spec_items(),
    {
        let ghost items = self.spec_items();
        let ghost at = ctx.heap().len() as int;
        let node = Node::List(self.items);
        proof {
            let raw = items_view(self.items@);
            assert forall|i: int| 0 <= i < raw.len() implies 0 <= #[trigger] raw[i] < at by {
                assert(ctx.holds(items[i]));
            }
        }
        let r = ctx.alloc_value(node);
        proof {
            let ni = crate::list::node_items(ctx, r);
            assert forall|i: int| 0 <= i < ni.len() implies ni[i] == items[i] by {
                lemma_nix_value_at(items[i]);
            }
            assert(ni =~= items);
            assert(ctx.heap().take(at) =~= old(ctx).heap());
        }
        r
    }
}

/// Writes the attribute set `attrs` into the heap, returning it as an
/// attribute set of the heap with the same attributes in the same order.
pub fn write_attrset<A: Attrset>(attrs: &A, ctx: &mut Context) -> (r: NixAttrset)
    requires
        old(ctx).wf(),
        attrs.attrset_wf(old(ctx)),
        old(ctx).heap().len() < usize::MAX,
    ensures
        final(ctx).wf(),
        final(ctx).heap().take(old(ctx).heap().len() as int) == old(ctx).heap(),
        final(ctx).heap().len() == old(ctx).heap().len() + 1,
        final(ctx).spec_builtins() == old(ctx).spec_builtins(),
        r.attrset_wf(final(ctx)),
        r.spec_attrs(final(ctx)) == attrs.spec_attrs(old(ctx)),
{
    proof {
        attrs.lemma_attrs_wf(ctx);
    }
    let pairs = attrs.pairs(ctx);
    let n = pairs.len();
    let ghost all = pairs_view(pairs@);
    let mut builder = AttrsetBuilder::new(n);
    let mut i: usize = 0;
    while i < n
        invariant
            ctx.wf(),
            n == pairs@.len(),
            all == pairs_view(pairs@),
            attrs_wf(&*ctx, all),
            0 <= i <= n,
            builder.spec_attrs() == all.take(i as int),
            attrs_wf(&*ctx, builder.spec_attrs()),
        decreases n - i,
    {
        let key = crate::lex::copy_bytes(&pairs[i].0);
        proof {
            assert(all[i as int] == (key@, pairs@[i as int].1));
            assert(valid_name(all[i as int].0));
            assert(ctx.holds(all[i as int].1));
            if names_of(all.take(i as int)).contains(key@) {
                let j = choose|j: int| 0 <= j < i && names_of(all.take(i as int))[j] == key@;
                assert(names_of(all)[j] == names_of(all)[i as int]);
            }
        }
        builder.insert(key, pairs[i].1, ctx);
        assert(all.take(i + 1) =~= all.take(i as int).push(all[i as int]));
        i = i + 1;
    }
    assert(all.take(i as int) =~= all);
    let v = builder.build(ctx);
    NixAttrset::from_value(v, ctx)
}

/// Writes the list `list` into the heap, returning it as a list of the heap
/// with the same items in the same order.
pub fn write_list<L: List>(list: &L, ctx: &mut Context) -> (r: NixList)
    requires
        old(ctx).wf(),
        list.list_wf(old(ctx)),
        old(ctx).heap().len() < usize::MAX,
    ensures
        final(ctx).wf(),
        final(ctx).heap().take(old(ctx).heap().len() as int) == old(ctx).heap(),
        final(ctx).heap().len() == old(ctx).heap().len() + 1,
        final(ctx).spec_builtins() == old(ctx).spec_builtins(),
        r.list_wf(final(ctx)),
        r.spec_items(final(ctx)) == list.spec_items(old(ctx)),
{
    proof {
        list.lemma_list_wf(ctx);
    }
    let items = list.items(ctx);
    let n = items.len();
    let mut builder = ListBuilder::new(n);
    let mut i: usize = 0;
    while i < n
        invariant
            n == items@.len(),
            n <= u32::MAX,
            0 <= i <= n,
            builder.spec_items() == items@.take(i as int),
        decreases n - i,
    {
        builder.insert(items[i]);
        assert(items@.take(i + 1) =~= items@.take(i as int).push(items@[i as int]));
        i = i + 1;
    }
    assert(items@.take(i as int) =~= items@);
    let v = builder.build(ctx);
    NixList::from_value(v, ctx)
}

} // verus!
