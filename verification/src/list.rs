//! Lists: those of the heap, literal ones, the concatenation of two lists,
//! and the chaining of two sequences whose length is known.

use vstd::prelude::*;

use crate::error::{Error, TypeMismatchError};
use crate::value::{
    Context, NixValue, Node, SpecNode, TryFromValue, ValueKind, is_mismatch, lemma_nix_value_at,
    lemma_nix_value_at_index, nix_value_at, node_kind, node_wf,
};

verus! {

/// Lists of values of the heap.
pub trait List {
    /// The items of the list.
    spec fn spec_items(&self, ctx: &Context) -> Seq<NixValue>;

    /// The list is consistent with the heap of `ctx`.
    spec fn list_wf(&self, ctx: &Context) -> bool;

    /// A consistent list holds values of the heap, and its length fits a
    /// `c_uint`.
    proof fn lemma_list_wf(&self, ctx: &Context)
        requires
            ctx.wf(),
            self.list_wf(ctx),
        ensures
            self.spec_items(ctx).len() <= u32::MAX,
            forall|i: int| 0 <= i < self.spec_items(ctx).len() ==> ctx.holds(#[trigger] self.spec_items(ctx)[i]),
    ;

    /// The number of items.
    fn len(&self, ctx: &Context) -> (r: u32)
        requires
            ctx.wf(),
            self.list_wf(ctx),
        ensures
            r == self.spec_items(ctx).len(),
    ;

    /// The item at position `idx`.
    fn with_value(&self, idx: u32, ctx: &Context) -> (r: NixValue)
        requires
            ctx.wf(),
            self.list_wf(ctx),
            idx < self.spec_items(ctx).len(),
        ensures
            r == self.spec_items(ctx)[idx as int],
    ;

    /// The items, in order.
    fn items(&self, ctx: &Context) -> (r: Vec<NixValue>)
        requires
            ctx.wf(),
            self.list_wf(ctx),
        ensures
            r@ == self.spec_items(ctx),
    {
        proof {
            self.lemma_list_wf(ctx);
        }
        let n = self.len(ctx);
        let mut out: Vec<NixValue> = Vec::new();
        let mut i: u32 = 0;
        while i < n
            invariant
                ctx.wf(),
                self.list_wf(ctx),
                n == self.spec_items(ctx).len(),
                0 <= i <= n,
                out@ == self.spec_items(ctx).take(i as int),
            decreases n - i,
        {
            let v = self.with_value(i, ctx);
            out.push(v);
            assert(self.spec_items(ctx).take(i + 1) =~= self.spec_items(ctx).take(i as int).push(v));
            i = i + 1;
        }
        assert(self.spec_items(ctx).take(n as int) =~= self.spec_items(ctx));
        out
    }

    /// Whether the list has no item.
    fn is_empty(&self, ctx: &Context) -> (r: bool)
        requires
            ctx.wf(),
            self.list_wf(ctx),
        ensures
            r == (self.spec_items(ctx).len() == 0),
    {
        self.len(ctx) == 0
    }
}

/// No list is the empty one.
impl<L: List> List for Option<L> {
    open spec fn spec_items(&self, ctx: &Context) -> Seq<NixValue> {
        match self {
            Some(l) => l.spec_items(ctx),
            None => Seq::empty(),
        }
    }

    open spec fn list_wf(&self, ctx: &Context) -> bool {
        match self {
            Some(l) => l.list_wf(ctx),
            None => true,
        }
    }

    proof fn lemma_list_wf(&self, ctx: &Context) {
        match self {
            Some(l) => l.lemma_list_wf(ctx),
            None => {},
        }
    }

    fn len(&self, ctx: &Context) -> (r: u32) {
        match self {
            Some(l) => l.len(ctx),
            None => 0,
        }
    }

    fn with_value(&self, idx: u32, ctx: &Context) -> (r: NixValue) {
        match self {
            Some(l) => l.with_value(idx, ctx),
            None => ctx.builtins_value(),
        }
    }
}

/// A list of the heap.
#[derive(Clone, Copy, Debug)]
pub struct NixList {
    value: NixValue,
}

/// The items of the list node `v` points to.
pub open spec fn node_items(ctx: &Context, v: NixValue) -> Seq<NixValue> {
    match ctx.node(v) {
        SpecNode::List(items) => items.map_values(|i: int| nix_value_at(i)),
        _ => Seq::empty(),
    }
}

impl NixList {
    /// The value this list is.
    pub closed spec fn spec_value(self) -> NixValue {
        self.value
    }

    /// The list the value `value` is; it must be one.
    pub fn from_value(value: NixValue, ctx: &Context) -> (r: NixList)
        requires
            ctx.holds(value),
            ctx.node(value) is List,
        ensures
            r.spec_value() == value,
    {
        NixList { value }
    }

    /// The value this list is.
    pub fn as_value(self) -> (r: NixValue)
        ensures
            r == self.spec_value(),
    {
        self.value
    }

    /// The item at position `idx`, converted into a `T`.
    pub fn get<T: TryFromValue>(self, idx: u32, ctx: &Context) -> (r: Result<T, Error>)
        requires
            ctx.wf(),
            self.list_wf(ctx),
            idx < self.spec_items(ctx).len(),
        ensures
            T::converts(ctx, self.spec_items(ctx)[idx as int], r),
    {
        proof {
            self.lemma_list_wf(ctx);
        }
        let v = self.with_value(idx, ctx);
        T::try_from_value(v, ctx)
    }
}

impl List for NixList {
    open spec fn spec_items(&self, ctx: &Context) -> Seq<NixValue> {
        node_items(ctx, self.spec_value())
    }

    open spec fn list_wf(&self, ctx: &Context) -> bool {
        &&& ctx.holds(self.spec_value())
        &&& ctx.node(self.spec_value()) is List
    }

    proof fn lemma_list_wf(&self, ctx: &Context) {
        let v = self.spec_value();
        let raw = ctx.node(v)->List_0;
        assert(node_wf(ctx.heap()[v.index()], v.index()));
        assert forall|i: int| 0 <= i < self.spec_items(ctx).len() implies ctx.holds(#[trigger] self.spec_items(ctx)[i]) by {
            lemma_nix_value_at_index(raw[i]);
        }
    }

    fn len(&self, ctx: &Context) -> (r: u32) {
        proof {
            self.lemma_list_wf(ctx);
        }
        match ctx.node_ref(self.value) {
            Node::List(items) => items.len() as u32,
            _ => 0,
        }
    }

    fn with_value(&self, idx: u32, ctx: &Context) -> (r: NixValue) {
        match ctx.node_ref(self.value) {
            Node::List(items) => {
                proof {
                    lemma_nix_value_at(items@[idx as int]);
                }
                items[idx as usize]
            },
            _ => self.value,
        }
    }
}

impl TryFromValue for NixList {
    open spec fn converts(ctx: &Context, v: NixValue, r: Result<NixList, Error>) -> bool {
        match ctx.node(ctx.forced(v)) {
            SpecNode::List(_) => r matches Ok(l) && l.spec_value() == ctx.forced(v) && ctx.holds(ctx.forced(v)),
            other => is_mismatch(r, ValueKind::List, node_kind(other)),
        }
    }

    fn try_from_value(value: NixValue, ctx: &Context) -> (r: Result<NixList, Error>) {
        let v = ctx.force(value);
        match ctx.node_ref(v) {
            Node::List(_) => Ok(NixList { value: v }),
            _ => Err(TypeMismatchError { expected: ValueKind::List, found: ctx.kind(v) }.to_error()),
        }
    }
}

/// `r` is the result of converting the values `items` one by one, in
/// order: all of them, or the error of the first that fails.
pub open spec fn converts_items<T: TryFromValue>(ctx: &Context, items: Seq<NixValue>, r: Result<Vec<T>, Error>) -> bool {
    match r {
        Ok(vs) => {
            &&& vs@.len() == items.len()
            &&& forall|i: int| 0 <= i < items.len() ==> T::converts(ctx, items[i], Ok(#[trigger] vs@[i]))
        },
        Err(e) => exists|k: int|
            0 <= k < items.len() && T::converts(ctx, #[trigger] items[k], Err(e)) && forall|j: int|
                0 <= j < k ==> #[trigger] converts_ok::<T>(ctx, items[j]),
    }
}

/// The value `v` can convert into a `T`.
pub open spec fn converts_ok<T: TryFromValue>(ctx: &Context, v: NixValue) -> bool {
    exists|t: T| #[trigger] T::converts(ctx, v, Ok(t))
}

/// Converts the items of `list` one by one, stopping at the first that
/// fails.
pub fn vec_from_list<T: TryFromValue>(list: NixList, ctx: &Context) -> (r: Result<Vec<T>, Error>)
    requires
        ctx.wf(),
        list.list_wf(ctx),
    ensures
        converts_items(ctx, list.spec_items(ctx), r),
{
    let n = list.len(ctx);
    let ghost items = list.spec_items(ctx);
    let mut out: Vec<T> = Vec::new();
    let mut i: u32 = 0;
    while i < n
        invariant
            ctx.wf(),
            list.list_wf(ctx),
            items == list.spec_items(ctx),
            n == items.len(),
            i <= n,
            out@.len() == i,
            forall|j: int| 0 <= j < i ==> T::converts(ctx, items[j], Ok(#[trigger] out@[j])),
        decreases n - i,
    {
        match list.get::<T>(i, ctx) {
            Ok(t) => {
                out.push(t);
            },
            Err(e) => {
                assert forall|j: int| 0 <= j < i implies #[trigger] converts_ok::<T>(ctx, items[j]) by {
                    assert(T::converts(ctx, items[j], Ok(out@[j])));
                }
                return Err(e);
            },
        }
        i = i + 1;
    }
    Ok(out)
}

impl<T: TryFromValue> TryFromValue for Vec<T> {
    /// A list converts item by item; any other value is a type mismatch.
    open spec fn converts(ctx: &Context, v: NixValue, r: Result<Vec<T>, Error>) -> bool {
        match ctx.node(ctx.forced(v)) {
            SpecNode::List(_) => converts_items(ctx, node_items(ctx, ctx.forced(v)), r),
            other => is_mismatch(r, ValueKind::List, node_kind(other)),
        }
    }

    fn try_from_value(value: NixValue, ctx: &Context) -> (r: Result<Vec<T>, Error>) {
        match NixList::try_from_value(value, ctx) {
            Ok(list) => vec_from_list(list, ctx),
            Err(e) => Err(e),
        }
    }
}

/// A list written in the source.
pub struct LiteralList {
    values: Vec<NixValue>,
}

impl LiteralList {
    /// The items.
    pub closed spec fn spec_values(&self) -> Seq<NixValue> {
        self.values@
    }

    /// The list of the values `values`.
    pub fn new(values: Vec<NixValue>) -> (r: LiteralList)
        ensures
            r.spec_values() == values@,
    {
        LiteralList { values }
    }
}

impl List for LiteralList {
    open spec fn spec_items(&self, ctx: &Context) -> Seq<NixValue> {
        self.spec_values()
    }

    open spec fn list_wf(&self, ctx: &Context) -> bool {
        &&& self.spec_values().len() <= u32::MAX
        &&& forall|i: int| 0 <= i < self.spec_values().len() ==> ctx.holds(#[trigger] self.spec_values()[i])
    }

    proof fn lemma_list_wf(&self, ctx: &Context) {
    }

    fn len(&self, ctx: &Context) -> (r: u32) {
        self.values.len() as u32
    }

    fn with_value(&self, idx: u32, ctx: &Context) -> (r: NixValue) {
        self.values[idx as usize]
    }
}

/// The items of one list followed by those of another.
pub struct Concat<L, R> {
    left: L,
    right: R,
}

impl<L: List, R: List> Concat<L, R> {
    /// The first list.
    pub closed spec fn spec_left(&self) -> L {
        self.left
    }

    /// The second list.
    pub closed spec fn spec_right(&self) -> R {
        self.right
    }

    /// The items of `left` followed by those of `right`.
    pub fn new(left: L, right: R) -> (r: Self)
        ensures
            r.spec_left() == left,
            r.spec_right() == right,
    {
        Concat { left, right }
    }
}

impl<L: List, R: List> List for Concat<L, R> {
    open spec fn spec_items(&self, ctx: &Context) -> Seq<NixValue> {
        self.spec_left().spec_items(ctx) + self.spec_right().spec_items(ctx)
    }

    open spec fn list_wf(&self, ctx: &Context) -> bool {
        &&& self.spec_left().list_wf(ctx)
        &&& self.spec_right().list_wf(ctx)
        &&& self.spec_left().spec_items(ctx).len() + self.spec_right().spec_items(ctx).len() <= u32::MAX
    }

    proof fn lemma_list_wf(&self, ctx: &Context) {
        self.left.lemma_list_wf(ctx);
        self.right.lemma_list_wf(ctx);
        let l = self.left.spec_items(ctx);
        let r = self.right.spec_items(ctx);
        assert forall|i: int| 0 <= i < (l + r).len() implies ctx.holds(#[trigger] (l + r)[i]) by {
            if i < l.len() {
                assert((l + r)[i] == l[i]);
            } else {
                assert((l + r)[i] == r[i - l.len()]);
            }
        }
    }

    fn len(&self, ctx: &Context) -> (r: u32) {
        self.left.len(ctx) + self.right.len(ctx)
    }

    fn with_value(&self, idx: u32, ctx: &Context) -> (r: NixValue) {
        let left_len = self.left.len(ctx);
        if idx < left_len {
            self.left.with_value(idx, ctx)
        } else {
            self.right.with_value(idx - left_len, ctx)
        }
    }
}

/// Two sequences chained, the length of the whole being known.
pub struct ChainExact<T> {
    left: Vec<T>,
    right: Vec<T>,
    /// How many items of `left` were handed out.
    left_pos: usize,
    /// How many items of `right` were handed out.
    right_pos: usize,
}

/// Chains `left` and `right`.
pub fn chain_exact<T: Copy>(left: Vec<T>, right: Vec<T>) -> (r: ChainExact<T>)
    ensures
        r.wf(),
        r.remaining() == left@ + right@,
{
    ChainExact { left, right, left_pos: 0, right_pos: 0 }
}

impl<T: Copy> ChainExact<T> {
    /// The items not handed out yet.
    pub closed spec fn remaining(&self) -> Seq<T> {
        self.left@.skip(self.left_pos as int) + self.right@.skip(self.right_pos as int)
    }

    /// The positions are within the sequences, and `right` is only started
    /// once `left` is done.
    pub closed spec fn wf(&self) -> bool {
        &&& self.left_pos <= self.left@.len()
        &&& self.right_pos <= self.right@.len()
        &&& self.right_pos > 0 ==> self.left_pos == self.left@.len()
    }

    /// The next item, if any.
    pub fn next(&mut self) -> (r: Option<T>)
        requires
            old(self).wf(),
        ensures
            final(self).wf(),
            match r {
                Some(x) => old(self).remaining().len() > 0 && x == old(self).remaining()[0]
                    && final(self).remaining() == old(self).remaining().drop_first(),
                None => old(self).remaining().len() == 0 && final(self).remaining() == old(self).remaining(),
            },
    {
        let ghost before = self.remaining();
        if self.left_pos < self.left.len() {
            let x = self.left[self.left_pos];
            self.left_pos = self.left_pos + 1;
            assert(self.remaining() =~= before.drop_first());
            Some(x)
        } else if self.right_pos < self.right.len() {
            let x = self.right[self.right_pos];
            self.right_pos = self.right_pos + 1;
            assert(self.remaining() =~= before.drop_first());
            Some(x)
        } else {
            None
        }
    }

    /// The number of items not handed out yet.
    pub fn len(&self) -> (r: usize)
        requires
            self.wf(),
            self.remaining().len() <= usize::MAX,
        ensures
            r == self.remaining().len(),
    {
        (self.left.len() - self.left_pos) + (self.right.len() - self.right_pos)
    }
}

} // verus!
