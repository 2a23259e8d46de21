//! A model of the Nix value heap: values are pointers to nodes of the heap,
//! and every node only points to nodes allocated before it.

use vstd::prelude::*;

use crate::error::{Error, ErrorKind, IntType, SpecError, TryFromI64Error, TypeMismatchError, spec_type_mismatch_message, spec_try_from_i64_message};

verus! {

/// The kinds of Nix values.
#[derive(Clone, Copy, Debug, PartialEq, Eq, Structural)]
pub enum ValueKind {
    Attrset,
    Bool,
    External,
    Float,
    Function,
    Int,
    List,
    Null,
    Path,
    String,
    Thunk,
}

impl ValueKind {
    /// The name of the kind, as it appears in messages.
    pub open spec fn spec_name(self) -> Seq<char> {
        match self {
            ValueKind::Attrset => "Attrset"@,
            ValueKind::Bool => "Bool"@,
            ValueKind::External => "External"@,
            ValueKind::Float => "Float"@,
            ValueKind::Function => "Function"@,
            ValueKind::Int => "Int"@,
            ValueKind::List => "List"@,
            ValueKind::Null => "Null"@,
            ValueKind::Path => "Path"@,
            ValueKind::String => "String"@,
            ValueKind::Thunk => "Thunk"@,
        }
    }

    /// The name of the kind, as it appears in messages.
    pub fn name(self) -> (r: &'static str)
        ensures
            r@ == self.spec_name(),
    {
        match self {
            ValueKind::Attrset => "Attrset",
            ValueKind::Bool => "Bool",
            ValueKind::External => "External",
            ValueKind::Float => "Float",
            ValueKind::Function => "Function",
            ValueKind::Int => "Int",
            ValueKind::List => "List",
            ValueKind::Null => "Null",
            ValueKind::Path => "Path",
            ValueKind::String => "String",
            ValueKind::Thunk => "Thunk",
        }
    }

    /// The `ValueType` code of the Nix C API for this kind.
    pub open spec fn spec_type_code(self) -> u32 {
        match self {
            ValueKind::Thunk => 0,
            ValueKind::Int => 1,
            ValueKind::Float => 2,
            ValueKind::Bool => 3,
            ValueKind::String => 4,
            ValueKind::Path => 5,
            ValueKind::Null => 6,
            ValueKind::Attrset => 7,
            ValueKind::List => 8,
            ValueKind::Function => 9,
            ValueKind::External => 10,
        }
    }

    /// The kind the Nix C API's `ValueType` code stands for.
    pub fn from_type_code(code: u32) -> (r: ValueKind)
        requires
            code <= 10,
        ensures
            r.spec_type_code() == code,
    {
        match code {
            0 => ValueKind::Thunk,
            1 => ValueKind::Int,
            2 => ValueKind::Float,
            3 => ValueKind::Bool,
            4 => ValueKind::String,
            5 => ValueKind::Path,
            6 => ValueKind::Null,
            7 => ValueKind::Attrset,
            8 => ValueKind::List,
            9 => ValueKind::Function,
            _ => ValueKind::External,
        }
    }
}

/// A pointer to a value in the heap of a [`Context`].
#[derive(Clone, Copy, Debug, PartialEq, Eq, Structural)]
pub struct ValuePointer {
    index: usize,
}

impl ValuePointer {
    /// The position of the pointed-to node in the heap.
    pub closed spec fn spec_index(self) -> int {
        self.index as int
    }

    /// The address of the pointed-to node.
    pub fn as_ptr(self) -> (r: usize)
        ensures
            r as int == self.spec_index(),
    {
        self.index
    }

    /// The raw address of the pointed-to node.
    pub fn as_raw(self) -> (r: usize)
        ensures
            r as int == self.spec_index(),
    {
        self.index
    }

    /// The pointer to the node at `index`.
    pub fn new(index: usize) -> (r: ValuePointer)
        ensures
            r.spec_index() == index,
    {
        ValuePointer { index }
    }
}

/// An initialized value of the heap.
#[derive(Clone, Copy, Debug, PartialEq, Eq, Structural)]
pub struct NixValue {
    ptr: ValuePointer,
}

impl NixValue {
    /// The position of the value in the heap.
    pub open spec fn index(self) -> int {
        self.spec_ptr().spec_index()
    }

    /// The pointer to the value.
    pub closed spec fn spec_ptr(self) -> ValuePointer {
        self.ptr
    }

    /// The value at the given pointer.
    pub fn new(ptr: ValuePointer) -> (r: NixValue)
        ensures
            r.spec_ptr() == ptr,
    {
        NixValue { ptr }
    }

    /// The pointer to the value.
    pub fn as_raw(self) -> (r: ValuePointer)
        ensures
            r == self.spec_ptr(),
    {
        self.ptr
    }
}

/// An attribute of an attribute set node: a name and a value.
#[derive(Clone, Debug)]
pub struct Attr {
    pub name: Vec<u8>,
    pub value: NixValue,
}

/// A node of the heap. Functions and external values are opaque: they are
/// identified by a number.
#[derive(Clone, Debug)]
pub enum Node {
    Attrset(Vec<Attr>),
    Bool(bool),
    External(u64),
    /// The bits of the floating-point number.
    Float(u64),
    Function(u64),
    Int(i64),
    List(Vec<NixValue>),
    Null,
    Path(String),
    String(String),
    /// A value that evaluates to the given one when forced.
    Thunk(NixValue),
}

/// The view of a node.
pub enum SpecNode {
    Attrset(Seq<(Seq<u8>, int)>),
    Bool(bool),
    External(u64),
    Float(u64),
    Function(u64),
    Int(i64),
    List(Seq<int>),
    Null,
    Path(Seq<char>),
    String(Seq<char>),
    Thunk(int),
}

/// The view of the attributes of an attribute set node.
pub open spec fn attrs_view(attrs: Seq<Attr>) -> Seq<(Seq<u8>, int)> {
    attrs.map_values(|a: Attr| (a.name@, a.value.index()))
}

/// The view of the items of a list node.
pub open spec fn items_view(items: Seq<NixValue>) -> Seq<int> {
    items.map_values(|v: NixValue| v.index())
}

impl View for Node {
    type V = SpecNode;

    open spec fn view(&self) -> SpecNode {
        match self {
            Node::Attrset(attrs) => SpecNode::Attrset(attrs_view(attrs@)),
            Node::Bool(b) => SpecNode::Bool(*b),
            Node::External(id) => SpecNode::External(*id),
            Node::Float(bits) => SpecNode::Float(*bits),
            Node::Function(id) => SpecNode::Function(*id),
            Node::Int(n) => SpecNode::Int(*n),
            Node::List(items) => SpecNode::List(items_view(items@)),
            Node::Null => SpecNode::Null,
            Node::Path(p) => SpecNode::Path(p@),
            Node::String(s) => SpecNode::String(s@),
            Node::Thunk(v) => SpecNode::Thunk(v.index()),
        }
    }
}

/// The kind of a node.
pub open spec fn node_kind(n: SpecNode) -> ValueKind {
    match n {
        SpecNode::Attrset(_) => ValueKind::Attrset,
        SpecNode::Bool(_) => ValueKind::Bool,
        SpecNode::External(_) => ValueKind::External,
        SpecNode::Float(_) => ValueKind::Float,
        SpecNode::Function(_) => ValueKind::Function,
        SpecNode::Int(_) => ValueKind::Int,
        SpecNode::List(_) => ValueKind::List,
        SpecNode::Null => ValueKind::Null,
        SpecNode::Path(_) => ValueKind::Path,
        SpecNode::String(_) => ValueKind::String,
        SpecNode::Thunk(_) => ValueKind::Thunk,
    }
}

/// The names of a list of attributes.
pub open spec fn attr_names(attrs: Seq<(Seq<u8>, int)>) -> Seq<Seq<u8>> {
    attrs.map_values(|a: (Seq<u8>, int)| a.0)
}

/// A name that can be given to a Nix attribute through the C API: it holds
/// no NUL byte.
pub open spec fn valid_name(name: Seq<u8>) -> bool {
    forall|i: int| 0 <= i < name.len() ==> name[i] != 0u8
}

/// The node `n`, stored at position `at`, only points to earlier nodes, and
/// its attribute names are valid and distinct, and its attributes or items
/// can be counted in a `c_uint`.
pub open spec fn node_wf(n: SpecNode, at: int) -> bool {
    match n {
        SpecNode::Attrset(attrs) => {
            &&& forall|i: int| 0 <= i < attrs.len() ==> 0 <= #[trigger] attrs[i].1 < at
            &&& forall|i: int| 0 <= i < attrs.len() ==> valid_name(#[trigger] attrs[i].0)
            &&& attr_names(attrs).no_duplicates()
            &&& attrs.len() <= u32::MAX
        },
        SpecNode::List(items) => {
            &&& forall|i: int| 0 <= i < items.len() ==> 0 <= #[trigger] items[i] < at
            &&& items.len() <= u32::MAX
        },
        SpecNode::Thunk(v) => 0 <= v < at,
        _ => true,
    }
}

/// The evaluation state: the heap of values and the `builtins` attribute set.
pub struct Context {
    heap: Vec<Node>,
    builtins: NixValue,
}

/// A handle to the evaluation state.
pub struct EvalState {
    context: Context,
}

/// The marker of the context a plugin's entry point runs in.
pub struct Entrypoint {}

impl Context {
    /// The nodes of the heap.
    pub closed spec fn heap(&self) -> Seq<SpecNode> {
        self.heap@.map_values(|n: Node| n@)
    }

    /// The `builtins` attribute set.
    pub closed spec fn spec_builtins(&self) -> NixValue {
        self.builtins
    }

    /// Every node only points to earlier nodes, and `builtins` is an
    /// attribute set of the heap.
    pub open spec fn wf(&self) -> bool {
        &&& forall|i: int| 0 <= i < self.heap().len() ==> node_wf(#[trigger] self.heap()[i], i)
        &&& self.heap().len() <= usize::MAX
        &&& self.holds(self.spec_builtins())
        &&& self.heap()[self.spec_builtins().index()] is Attrset
    }

    /// `v` points into the heap.
    pub open spec fn holds(&self, v: NixValue) -> bool {
        0 <= v.index() < self.heap().len()
    }

    /// The node `v` points to.
    pub open spec fn node(&self, v: NixValue) -> SpecNode {
        self.heap()[v.index()]
    }

    /// The value `v` evaluates to: the value itself, or, for a thunk, what
    /// the value it stands for evaluates to.
    pub open spec fn forced(&self, v: NixValue) -> NixValue
        decreases v.index(),
    {
        if self.holds(v) && self.node(v) is Thunk && 0 <= self.node(v)->Thunk_0 < v.index() {
            self.forced(nix_value_at(self.node(v)->Thunk_0))
        } else {
            v
        }
    }

    /// A context whose heap only holds an empty `builtins` attribute set.
    pub fn new() -> (r: Context)
        ensures
            r.wf(),
            r.heap() == seq![SpecNode::Attrset(Seq::empty())],
            r.spec_builtins().index() == 0,
    {
        let mut heap: Vec<Node> = Vec::new();
        heap.push(Node::Attrset(Vec::new()));
        let r = Context { heap, builtins: NixValue { ptr: ValuePointer { index: 0 } } };
        assert(attrs_view(Seq::<Attr>::empty()) =~= Seq::empty());
        assert(attr_names(Seq::<(Seq<u8>, int)>::empty()) =~= Seq::empty());
        assert(r.heap@[0]@ == SpecNode::Attrset(Seq::empty()));
        assert(r.heap() =~= seq![SpecNode::Attrset(Seq::empty())]);
        r
    }

    /// Adds a node to the heap, returning the value pointing to it.
    pub fn alloc_value(&mut self, node: Node) -> (r: NixValue)
        requires
            old(self).wf(),
            node_wf(node@, old(self).heap().len() as int),
            old(self).heap().len() < usize::MAX,
        ensures
            final(self).wf(),
            final(self).heap() == old(self).heap().push(node@),
            final(self).spec_builtins() == old(self).spec_builtins(),
            r.index() == old(self).heap().len(),
    {
        let index = self.heap.len();
        self.heap.push(node);
        proof {
            assert(self.heap() =~= old(self).heap().push(node@));
        }
        NixValue { ptr: ValuePointer { index } }
    }

    /// Makes the attribute set `attrs` the `builtins` attribute set.
    pub fn set_builtins(&mut self, attrs: NixValue)
        requires
            old(self).wf(),
            old(self).holds(attrs),
            old(self).node(attrs) is Attrset,
        ensures
            final(self).wf(),
            final(self).heap() == old(self).heap(),
            final(self).spec_builtins() == attrs,
    {
        self.builtins = attrs;
    }

    /// The `builtins` attribute set.
    pub fn builtins_value(&self) -> (r: NixValue)
        ensures
            r == self.spec_builtins(),
    {
        self.builtins
    }

    /// The number of nodes in the heap.
    pub fn heap_len(&self) -> (r: usize)
        ensures
            r == self.heap().len(),
    {
        self.heap.len()
    }

    /// The node `v` points to.
    pub fn node_ref(&self, v: NixValue) -> (r: &Node)
        requires
            self.holds(v),
        ensures
            r@ == self.node(v),
    {
        &self.heap[v.ptr.index]
    }

    /// The kind of the value `v` points to, without forcing it.
    pub fn kind(&self, v: NixValue) -> (r: ValueKind)
        requires
            self.holds(v),
        ensures
            r == node_kind(self.node(v)),
    {
        match &self.heap[v.ptr.index] {
            Node::Attrset(_) => ValueKind::Attrset,
            Node::Bool(_) => ValueKind::Bool,
            Node::External(_) => ValueKind::External,
            Node::Float(_) => ValueKind::Float,
            Node::Function(_) => ValueKind::Function,
            Node::Int(_) => ValueKind::Int,
            Node::List(_) => ValueKind::List,
            Node::Null => ValueKind::Null,
            Node::Path(_) => ValueKind::Path,
            Node::String(_) => ValueKind::String,
            Node::Thunk(_) => ValueKind::Thunk,
        }
    }

    /// Evaluates `v`: follows thunks until a value that is not a thunk.
    pub fn force(&self, v: NixValue) -> (r: NixValue)
        requires
            self.wf(),
            self.holds(v),
        ensures
            r == self.forced(v),
            self.holds(r),
            !(self.node(r) is Thunk),
        decreases v.index(),
    {
        match &self.heap[v.ptr.index] {
            Node::Thunk(inner) => {
                let inner = *inner;
                proof {
                    assert(node_wf(self.heap()[v.index()], v.index()));
                    assert(self.node(v)->Thunk_0 == inner.index());
                    assert(nix_value_at(inner.index()) == inner) by {
                        lemma_nix_value_at(inner);
                    }
                }
                self.force(inner)
            },
            _ => v,
        }
    }
}

/// The value pointing to the node at `index`.
pub closed spec fn nix_value_at(index: int) -> NixValue {
    NixValue { ptr: ValuePointer { index: index as usize } }
}

/// A value is the value pointing to its node, and the value at a position a
/// pointer can hold points there.
pub proof fn lemma_nix_value_at(v: NixValue)
    ensures
        nix_value_at(v.index()) == v,
{
}

/// The value at a position a pointer can hold points to that position.
pub proof fn lemma_nix_value_at_index(index: int)
    requires
        0 <= index <= usize::MAX,
    ensures
        nix_value_at(index).index() == index,
{
}

/// The error of a value of kind `found` where one of kind `expected` was
/// expected.
pub open spec fn mismatch_error(expected: ValueKind, found: ValueKind) -> SpecError {
    SpecError {
        kind: ErrorKind::Nix,
        message: spec_type_mismatch_message(TypeMismatchError { expected, found }),
    }
}

/// `r` is the error of a value of kind `found` where one of kind `expected`
/// was expected.
pub open spec fn is_mismatch<T>(r: Result<T, Error>, expected: ValueKind, found: ValueKind) -> bool {
    r matches Err(e) && e@ == mismatch_error(expected, found)
}

/// Types that values of the heap can be converted into.
pub trait TryFromValue: Sized {
    /// `r` is the result of converting the value `v` of the heap of `ctx`.
    spec fn converts(ctx: &Context, v: NixValue, r: Result<Self, Error>) -> bool;

    /// Converts the value `value` of the heap of `ctx`.
    fn try_from_value(value: NixValue, ctx: &Context) -> (r: Result<Self, Error>)
        requires
            ctx.wf(),
            ctx.holds(value),
        ensures
            Self::converts(ctx, value, r),
    ;
}

/// The unit value of Nix.
#[derive(Clone, Copy, Debug, Default, PartialEq, Eq, Structural)]
pub struct Null;

impl Null {
    /// The kind of `null`.
    pub fn kind(&self) -> (r: ValueKind)
        ensures
            r == ValueKind::Null,
    {
        ValueKind::Null
    }
}

impl TryFromValue for NixValue {
    /// A value converts into itself, unforced.
    open spec fn converts(ctx: &Context, v: NixValue, r: Result<NixValue, Error>) -> bool {
        r == Ok::<NixValue, Error>(v)
    }

    fn try_from_value(value: NixValue, ctx: &Context) -> (r: Result<NixValue, Error>) {
        Ok(value)
    }
}

impl TryFromValue for Null {
    open spec fn converts(ctx: &Context, v: NixValue, r: Result<Null, Error>) -> bool {
        match ctx.node(ctx.forced(v)) {
            SpecNode::Null => r is Ok,
            other => is_mismatch(r, ValueKind::Null, node_kind(other)),
        }
    }

    fn try_from_value(value: NixValue, ctx: &Context) -> (r: Result<Null, Error>) {
        let v = ctx.force(value);
        match ctx.node_ref(v) {
            Node::Null => Ok(Null),
            _ => Err(TypeMismatchError { expected: ValueKind::Null, found: ctx.kind(v) }.to_error()),
        }
    }
}

impl TryFromValue for bool {
    open spec fn converts(ctx: &Context, v: NixValue, r: Result<bool, Error>) -> bool {
        match ctx.node(ctx.forced(v)) {
            SpecNode::Bool(b) => r == Ok::<bool, Error>(b),
            other => is_mismatch(r, ValueKind::Bool, node_kind(other)),
        }
    }

    fn try_from_value(value: NixValue, ctx: &Context) -> (r: Result<bool, Error>) {
        let v = ctx.force(value);
        match ctx.node_ref(v) {
            Node::Bool(b) => Ok(*b),
            _ => Err(TypeMismatchError { expected: ValueKind::Bool, found: ctx.kind(v) }.to_error()),
        }
    }
}

impl TryFromValue for i64 {
    open spec fn converts(ctx: &Context, v: NixValue, r: Result<i64, Error>) -> bool {
        match ctx.node(ctx.forced(v)) {
            SpecNode::Int(n) => r == Ok::<i64, Error>(n),
            other => is_mismatch(r, ValueKind::Int, node_kind(other)),
        }
    }

    fn try_from_value(value: NixValue, ctx: &Context) -> (r: Result<i64, Error>) {
        let v = ctx.force(value);
        match ctx.node_ref(v) {
            Node::Int(n) => Ok(*n),
            _ => Err(TypeMismatchError { expected: ValueKind::Int, found: ctx.kind(v) }.to_error()),
        }
    }
}

/// `r` is the result of converting the value `v` into an integer of type
/// `target`: the integer, if it fits.
pub open spec fn converts_int(ctx: &Context, v: NixValue, target: IntType, r: Result<int, Error>) -> bool {
    match ctx.node(ctx.forced(v)) {
        SpecNode::Int(n) => if target.spec_min() <= n <= target.spec_max() {
            r == Ok::<int, Error>(n as int)
        } else {
            r matches Err(e) && e@ == SpecError {
                kind: ErrorKind::Nix,
                message: spec_try_from_i64_message(TryFromI64Error { n, target }),
            }
        },
        other => is_mismatch(r, ValueKind::Int, node_kind(other)),
    }
}

/// Converts the value into an integer that fits in `target`.
pub fn int_try_from_value(value: NixValue, ctx: &Context, target: IntType) -> (r: Result<i64, Error>)
    requires
        ctx.wf(),
        ctx.holds(value),
    ensures
        converts_int(ctx, value, target, match r { Ok(n) => Ok(n as int), Err(e) => Err(e) }),
        r matches Ok(n) ==> target.spec_min() <= n <= target.spec_max(),
{
    let n = i64::try_from_value(value, ctx)?;
    if target.fits(n) {
        Ok(n)
    } else {
        Err(TryFromI64Error::new(n, target).to_error())
    }
}

/// The view of an integer conversion's result.
pub open spec fn int_result<T: Integer>(r: Result<T, Error>) -> Result<int, Error> {
    match r {
        Ok(n) => Ok(n as int),
        Err(e) => Err(e),
    }
}

impl TryFromValue for i32 {
    open spec fn converts(ctx: &Context, v: NixValue, r: Result<i32, Error>) -> bool {
        converts_int(ctx, v, IntType::I32, int_result(r))
    }

    fn try_from_value(value: NixValue, ctx: &Context) -> (r: Result<i32, Error>) {
        let n = int_try_from_value(value, ctx, IntType::I32)?;
        Ok(n as i32)
    }
}

impl TryFromValue for u8 {
    open spec fn converts(ctx: &Context, v: NixValue, r: Result<u8, Error>) -> bool {
        converts_int(ctx, v, IntType::U8, int_result(r))
    }

    fn try_from_value(value: NixValue, ctx: &Context) -> (r: Result<u8, Error>) {
        let n = int_try_from_value(value, ctx, IntType::U8)?;
        Ok(n as u8)
    }
}

impl TryFromValue for u32 {
    open spec fn converts(ctx: &Context, v: NixValue, r: Result<u32, Error>) -> bool {
        converts_int(ctx, v, IntType::U32, int_result(r))
    }

    fn try_from_value(value: NixValue, ctx: &Context) -> (r: Result<u32, Error>) {
        let n = int_try_from_value(value, ctx, IntType::U32)?;
        Ok(n as u32)
    }
}

impl TryFromValue for u64 {
    open spec fn converts(ctx: &Context, v: NixValue, r: Result<u64, Error>) -> bool {
        converts_int(ctx, v, IntType::U64, int_result(r))
    }

    fn try_from_value(value: NixValue, ctx: &Context) -> (r: Result<u64, Error>) {
        let n = int_try_from_value(value, ctx, IntType::U64)?;
        Ok(n as u64)
    }
}

impl TryFromValue for String {
    open spec fn converts(ctx: &Context, v: NixValue, r: Result<String, Error>) -> bool {
        match ctx.node(ctx.forced(v)) {
            SpecNode::String(s) => r matches Ok(t) && t@ == s,
            other => is_mismatch(r, ValueKind::String, node_kind(other)),
        }
    }

    fn try_from_value(value: NixValue, ctx: &Context) -> (r: Result<String, Error>) {
        let v = ctx.force(value);
        match ctx.node_ref(v) {
            Node::String(s) => Ok(s.clone()),
            _ => Err(TypeMismatchError { expected: ValueKind::String, found: ctx.kind(v) }.to_error()),
        }
    }
}

impl<T: TryFromValue> TryFromValue for Option<T> {
    /// Converting into an option always gives `Some` of the conversion.
    open spec fn converts(ctx: &Context, v: NixValue, r: Result<Option<T>, Error>) -> bool {
        match r {
            Ok(Some(t)) => T::converts(ctx, v, Ok(t)),
            Ok(None) => false,
            Err(e) => T::converts(ctx, v, Err(e)),
        }
    }

    fn try_from_value(value: NixValue, ctx: &Context) -> (r: Result<Option<T>, Error>) {
        match T::try_from_value(value, ctx) {
            Ok(t) => Ok(Some(t)),
            Err(e) => Err(e),
        }
    }
}

/// Values that hold a boolean.
pub trait BoolValue: Sized {
    /// The value is a boolean.
    spec fn is_bool(&self, ctx: &Context) -> bool;

    /// The boolean the value holds.
    spec fn bool_of(&self, ctx: &Context) -> bool;

    /// The boolean of a value of kind `Bool`.
    fn into_bool(self, ctx: &Context) -> (r: bool)
        requires
            ctx.wf(),
            self.is_bool(ctx),
        ensures
            r == self.bool_of(ctx),
    ;
}

/// Values that hold an integer.
pub trait IntValue: Sized {
    /// The value is an integer.
    spec fn is_int(&self, ctx: &Context) -> bool;

    /// The integer the value holds.
    spec fn int_of(&self, ctx: &Context) -> i64;

    /// The integer of a value of kind `Int`.
    fn into_int(self, ctx: &Context) -> (r: i64)
        requires
            ctx.wf(),
            self.is_int(ctx),
        ensures
            r == self.int_of(ctx),
    ;
}

/// Values that hold a string.
pub trait StringValue: Sized {
    /// The value is a string.
    spec fn is_string(&self, ctx: &Context) -> bool;

    /// The characters of the string the value holds.
    spec fn string_of(&self, ctx: &Context) -> Seq<char>;

    /// The string of a value of kind `String`.
    fn into_string(self, ctx: &Context) -> (r: String)
        requires
            ctx.wf(),
            self.is_string(ctx),
        ensures
            r@ == self.string_of(ctx),
    ;
}

impl BoolValue for NixValue {
    open spec fn is_bool(&self, ctx: &Context) -> bool {
        ctx.holds(*self) && ctx.node(*self) is Bool
    }

    open spec fn bool_of(&self, ctx: &Context) -> bool {
        ctx.node(*self)->Bool_0
    }

    fn into_bool(self, ctx: &Context) -> (r: bool) {
        match ctx.node_ref(self) {
            Node::Bool(b) => *b,
            _ => false,
        }
    }
}

impl IntValue for NixValue {
    open spec fn is_int(&self, ctx: &Context) -> bool {
        ctx.holds(*self) && ctx.node(*self) is Int
    }

    open spec fn int_of(&self, ctx: &Context) -> i64 {
        ctx.node(*self)->Int_0
    }

    fn into_int(self, ctx: &Context) -> (r: i64) {
        match ctx.node_ref(self) {
            Node::Int(n) => *n,
            _ => 0,
        }
    }
}

impl IntValue for u32 {
    open spec fn is_int(&self, ctx: &Context) -> bool {
        true
    }

    open spec fn int_of(&self, ctx: &Context) -> i64 {
        *self as i64
    }

    fn into_int(self, ctx: &Context) -> (r: i64) {
        self as i64
    }
}

impl StringValue for NixValue {
    open spec fn is_string(&self, ctx: &Context) -> bool {
        ctx.holds(*self) && ctx.node(*self) is String
    }

    open spec fn string_of(&self, ctx: &Context) -> Seq<char> {
        ctx.node(*self)->String_0
    }

    fn into_string(self, ctx: &Context) -> (r: String) {
        match ctx.node_ref(self) {
            Node::String(s) => s.clone(),
            _ => String::new(),
        }
    }
}

} // verus!
