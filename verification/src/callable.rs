//! Values that are evaluated later (thunks), values that can be called
//! (functions and functors), and the `builtins` attribute set.

use vstd::prelude::*;

use crate::attrset::{Attrset, NixAttrset, ascii_bytes, literal_bytes, lookup, node_attrs, missing_attribute_error};
use crate::error::{Error, TypeMismatchError};
use crate::value::{Context, NixValue, Node, SpecNode, TryFromValue, ValueKind, is_mismatch, node_kind};

verus! {

/// A value that may have to be evaluated before it is used.
pub struct Thunk {
    value: NixValue,
}

/// Values that are turned into a `T` by evaluating them.
pub trait Lazy<T> {
    /// The lazy value can be evaluated in `ctx`.
    spec fn lazy_wf(&self, ctx: &Context) -> bool;

    /// `r` is the result of evaluating the lazy value.
    spec fn forces_to(&self, ctx: &Context, r: Result<T, Error>) -> bool;

    /// Evaluates the value and converts it into a `T`.
    fn force(self, ctx: &Context) -> (r: Result<T, Error>)
        requires
            ctx.wf(),
            self.lazy_wf(ctx),
        ensures
            self.forces_to(ctx, r),
    ;
}

impl Thunk {
    /// The value to evaluate.
    pub closed spec fn spec_value(&self) -> NixValue {
        self.value
    }

    /// The thunk of `value`.
    pub fn new(value: NixValue) -> (r: Thunk)
        ensures
            r.spec_value() == value,
    {
        Thunk { value }
    }

    /// Evaluates the value and converts what it evaluates to into a `T`.
    pub fn force_into<T: TryFromValue>(self, ctx: &Context) -> (r: Result<T, Error>)
        requires
            ctx.wf(),
            ctx.holds(self.spec_value()),
        ensures
            T::converts(ctx, ctx.forced(self.spec_value()), r),
    {
        Lazy::<T>::force(self.into_lazy::<T>(), ctx)
    }

    /// The thunk, as a value that evaluates to a `T`.
    pub fn into_lazy<T: TryFromValue>(self) -> (r: Thunk)
        ensures
            r == self,
    {
        self
    }
}

impl<T: TryFromValue> Lazy<T> for Thunk {
    open spec fn lazy_wf(&self, ctx: &Context) -> bool {
        ctx.holds(self.spec_value())
    }

    open spec fn forces_to(&self, ctx: &Context, r: Result<T, Error>) -> bool {
        T::converts(ctx, ctx.forced(self.spec_value()), r)
    }

    fn force(self, ctx: &Context) -> (r: Result<T, Error>) {
        let v = ctx.force(self.value);
        T::try_from_value(v, ctx)
    }
}

/// Forcing a thunk into a `T` and forcing the lazy value `into_lazy` makes
/// of it are the same: either can be done exactly when the thunk's value is
/// in the heap, and a result comes of either exactly when it is what that
/// value, once evaluated, converts into. `into_lazy` itself evaluates
/// nothing: it needs no context and gives the thunk back unchanged.
pub proof fn lemma_force_into_is_lazy_force<T: TryFromValue>(t: Thunk, ctx: &Context, r: Result<T, Error>)
    ensures
        Lazy::<T>::lazy_wf(&t, ctx) <==> ctx.holds(t.spec_value()),
        Lazy::<T>::forces_to(&t, ctx, r) <==> T::converts(ctx, ctx.forced(t.spec_value()), r),
{
}

impl TryFromValue for Thunk {
    /// Any value converts into the thunk of it, unevaluated.
    open spec fn converts(ctx: &Context, v: NixValue, r: Result<Thunk, Error>) -> bool {
        r matches Ok(t) && t.spec_value() == v
    }

    fn try_from_value(value: NixValue, ctx: &Context) -> (r: Result<Thunk, Error>) {
        Ok(Thunk { value })
    }
}

/// A function of the heap.
#[derive(Clone, Copy, Debug)]
pub struct NixLambda {
    value: NixValue,
}

impl NixLambda {
    /// The value this function is.
    pub closed spec fn spec_value(&self) -> NixValue {
        self.value
    }

    /// The value this function is.
    pub fn as_value(&self) -> (r: NixValue)
        ensures
            r == self.spec_value(),
    {
        self.value
    }
}

impl TryFromValue for NixLambda {
    /// A value converts into a function if it evaluates to one.
    open spec fn converts(ctx: &Context, v: NixValue, r: Result<NixLambda, Error>) -> bool {
        match ctx.node(ctx.forced(v)) {
            SpecNode::Function(_) => r matches Ok(l) && l.spec_value() == ctx.forced(v),
            other => is_mismatch(r, ValueKind::Function, node_kind(other)),
        }
    }

    fn try_from_value(value: NixValue, ctx: &Context) -> (r: Result<NixLambda, Error>) {
        let v = ctx.force(value);
        match ctx.node_ref(v) {
            Node::Function(_) => Ok(NixLambda { value: v }),
            _ => Err(TypeMismatchError { expected: ValueKind::Function, found: ctx.kind(v) }.to_error()),
        }
    }
}

/// An attribute set that can be called: its `__functor` attribute is a
/// function, or a value not evaluated yet.
#[derive(Clone, Copy, Debug)]
pub struct NixFunctor {
    inner: NixAttrset,
}

impl NixFunctor {
    /// The attribute set of the functor.
    pub closed spec fn spec_inner(&self) -> NixAttrset {
        self.inner
    }

    /// The attribute set of the functor.
    pub fn as_attrset(&self) -> (r: NixAttrset)
        ensures
            r == self.spec_inner(),
    {
        self.inner
    }
}

impl TryFromValue for NixFunctor {
    /// A value converts into a functor if it evaluates to an attribute set
    /// whose `__functor` attribute is, unevaluated, a function or a thunk.
    open spec fn converts(ctx: &Context, v: NixValue, r: Result<NixFunctor, Error>) -> bool {
        let forced = ctx.forced(v);
        let key = ascii_bytes("__functor"@);
        match ctx.node(forced) {
            SpecNode::Attrset(_) => match lookup(node_attrs(ctx, forced), key) {
                None => r matches Err(e) && e@ == missing_attribute_error(key),
                Some(f) => match ctx.node(f) {
                    SpecNode::Function(_) | SpecNode::Thunk(_) => r matches Ok(x) && x.spec_inner().spec_value() == forced,
                    other => is_mismatch(r, ValueKind::Function, node_kind(other)),
                },
            },
            other => is_mismatch(r, ValueKind::Attrset, node_kind(other)),
        }
    }

    fn try_from_value(value: NixValue, ctx: &Context) -> (r: Result<NixFunctor, Error>) {
        let attrset = NixAttrset::try_from_value(value, ctx)?;
        proof {
            reveal_strlit("__functor");
        }
        let key = literal_bytes("__functor");
        let f = attrset.get::<NixValue>(key, ctx)?;
        proof {
            attrset.lemma_attrs_wf(ctx);
        }
        match ctx.kind(f) {
            ValueKind::Function | ValueKind::Thunk => Ok(NixFunctor { inner: attrset }),
            other => Err(TypeMismatchError { expected: ValueKind::Function, found: other }.to_error()),
        }
    }
}

/// The `builtins` attribute set.
pub struct Builtins {
    inner: NixAttrset,
}

impl Builtins {
    /// The attribute set.
    pub closed spec fn spec_inner(&self) -> NixAttrset {
        self.inner
    }

    /// The `builtins` attribute set of `ctx`.
    pub fn new(ctx: &Context) -> (r: Builtins)
        requires
            ctx.wf(),
        ensures
            r.spec_inner().spec_value() == ctx.spec_builtins(),
            r.spec_inner().attrset_wf(ctx),
    {
        let v = ctx.builtins_value();
        proof {
            assert(crate::value::node_wf(ctx.heap()[v.index()], v.index()));
        }
        Builtins { inner: NixAttrset::from_value(v, ctx) }
    }

    /// The `builtins.fetchGit` function, which the attribute set must hold.
    pub fn fetch_git(&self, ctx: &Context) -> (r: NixLambda)
        requires
            ctx.wf(),
            self.spec_inner().attrset_wf(ctx),
            lookup(self.spec_inner().spec_attrs(ctx), ascii_bytes("fetchGit"@)) matches Some(f)
                && ctx.node(ctx.forced(f)) is Function,
        ensures
            lookup(self.spec_inner().spec_attrs(ctx), ascii_bytes("fetchGit"@)) matches Some(f)
                && r.spec_value() == ctx.forced(f),
    {
        proof {
            reveal_strlit("fetchGit");
            self.inner.lemma_attrs_wf(ctx);
        }
        let key = literal_bytes("fetchGit");
        match self.inner.get::<NixLambda>(key, ctx) {
            Ok(f) => f,
            Err(e) => {
                proof {
                    let f = lookup(self.spec_inner().spec_attrs(ctx), ascii_bytes("fetchGit"@)).unwrap();
                    let inner = choose|inner: Error| #[trigger] NixLambda::converts(ctx, f, Err(inner))
                        && crate::attrset::is_attribute_error(e, ascii_bytes("fetchGit"@), inner);
                    assert(NixLambda::converts(ctx, f, Err(inner)));
                }
                NixLambda { value: self.inner.as_value() }
            },
        }
    }
}

} // verus!
