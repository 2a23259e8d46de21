//! Attribute sets: those of the heap, literal ones, and the concatenation
//! and right-biased merge of two attribute sets.

use vstd::prelude::*;

use crate::error::{Error, ErrorKind, SpecError, ToError};
use crate::lex::{KeyOrder, compare_bytes, copy_bytes, lemma_lex_irreflexive};
use crate::text::{debug_c_str, push_debug_c_str, push_str};
use crate::value::{
    Context, NixValue, Node, SpecNode, TryFromValue, ValueKind, is_mismatch, lemma_nix_value_at,
    node_kind, node_wf, nix_value_at, lemma_nix_value_at_index, valid_name, attr_names, attrs_view,
};

verus! {

/// The names of a list of attributes.
pub open spec fn names_of(attrs: Seq<(Seq<u8>, NixValue)>) -> Seq<Seq<u8>> {
    attrs.map_values(|a: (Seq<u8>, NixValue)| a.0)
}

/// An attribute of the list is named `key`.
pub open spec fn has_name(attrs: Seq<(Seq<u8>, NixValue)>, key: Seq<u8>) -> bool {
    exists|i: int| 0 <= i < attrs.len() && (#[trigger] attrs[i]).0 == key
}

/// The position of an attribute named `key`, if there is one.
pub open spec fn name_index(attrs: Seq<(Seq<u8>, NixValue)>, key: Seq<u8>) -> int {
    choose|i: int| 0 <= i < attrs.len() && (#[trigger] attrs[i]).0 == key
}

/// The value of the attribute named `key`, if any.
pub open spec fn lookup(attrs: Seq<(Seq<u8>, NixValue)>, key: Seq<u8>) -> Option<NixValue> {
    if has_name(attrs, key) {
        Some(attrs[name_index(attrs, key)].1)
    } else {
        None
    }
}

/// The names are distinct and valid, the values are in the heap, and the
/// number of attributes fits a `c_uint`.
pub open spec fn attrs_wf(ctx: &Context, attrs: Seq<(Seq<u8>, NixValue)>) -> bool {
    &&& names_of(attrs).no_duplicates()
    &&& forall|i: int| 0 <= i < attrs.len() ==> valid_name(#[trigger] attrs[i].0)
    &&& forall|i: int| 0 <= i < attrs.len() ==> ctx.holds(#[trigger] attrs[i].1)
    &&& attrs.len() <= u32::MAX
}

/// In a list with distinct names, the attribute at `i` is what its name
/// looks up.
pub proof fn lemma_lookup_at(attrs: Seq<(Seq<u8>, NixValue)>, i: int)
    requires
        names_of(attrs).no_duplicates(),
        0 <= i < attrs.len(),
    ensures
        lookup(attrs, attrs[i].0) == Some(attrs[i].1),
{
    let key = attrs[i].0;
    assert(has_name(attrs, key));
    let j = name_index(attrs, key);
    assert(0 <= j < attrs.len() && attrs[j].0 == key);
    if j != i {
        assert(names_of(attrs)[i] == attrs[i].0);
        assert(names_of(attrs)[j] == attrs[j].0);
    }
}

/// The view of a vector of attributes.
pub open spec fn pairs_view(v: Seq<(Vec<u8>, NixValue)>) -> Seq<(Seq<u8>, NixValue)> {
    v.map_values(|p: (Vec<u8>, NixValue)| (p.0@, p.1))
}

/// Attribute sets: lists of named values of the heap, with distinct names.
pub trait Attrset {
    /// The attributes in the order they are iterated over.
    spec fn spec_attrs(&self, ctx: &Context) -> Seq<(Seq<u8>, NixValue)>;

    /// The attribute set is consistent with the heap of `ctx`.
    spec fn attrset_wf(&self, ctx: &Context) -> bool;

    /// A consistent attribute set has distinct, valid names and values in
    /// the heap.
    proof fn lemma_attrs_wf(&self, ctx: &Context)
        requires
            ctx.wf(),
            self.attrset_wf(ctx),
        ensures
            attrs_wf(ctx, self.spec_attrs(ctx)),
    ;

    /// The number of attributes.
    fn len(&self, ctx: &Context) -> (r: u32)
        requires
            ctx.wf(),
            self.attrset_wf(ctx),
        ensures
            r == self.spec_attrs(ctx).len(),
    ;

    /// The attributes, in the order they are iterated over.
    fn pairs(&self, ctx: &Context) -> (r: Vec<(Vec<u8>, NixValue)>)
        requires
            ctx.wf(),
            self.attrset_wf(ctx),
        ensures
            pairs_view(r@) == self.spec_attrs(ctx),
    ;

    /// The value of the attribute named `key`, if any.
    fn with_value(&self, key: &[u8], ctx: &Context) -> (r: Option<NixValue>)
        requires
            ctx.wf(),
            self.attrset_wf(ctx),
        ensures
            r == lookup(self.spec_attrs(ctx), key@),
    ;

    /// Whether an attribute is named `key`.
    fn contains_key(&self, key: &[u8], ctx: &Context) -> (r: bool)
        requires
            ctx.wf(),
            self.attrset_wf(ctx),
        ensures
            r == has_name(self.spec_attrs(ctx), key@),
    {
        self.with_value(key, ctx).is_some()
    }

    /// Whether the attribute set has no attribute.
    fn is_empty(&self, ctx: &Context) -> (r: bool)
        requires
            ctx.wf(),
            self.attrset_wf(ctx),
        ensures
            r == (self.spec_attrs(ctx).len() == 0),
    {
        self.len(ctx) == 0
    }
}

/// No attribute set is the empty one.
impl<A: Attrset> Attrset for Option<A> {
    open spec fn spec_attrs(&self, ctx: &Context) -> Seq<(Seq<u8>, NixValue)> {
        match self {
            Some(a) => a.spec_attrs(ctx),
            None => Seq::empty(),
        }
    }

    open spec fn attrset_wf(&self, ctx: &Context) -> bool {
        match self {
            Some(a) => a.attrset_wf(ctx),
            None => true,
        }
    }

    proof fn lemma_attrs_wf(&self, ctx: &Context) {
        match self {
            Some(a) => a.lemma_attrs_wf(ctx),
            None => {
                assert(names_of(Seq::<(Seq<u8>, NixValue)>::empty()) =~= Seq::<Seq<u8>>::empty());
            },
        }
    }

    fn len(&self, ctx: &Context) -> (r: u32) {
        match self {
            Some(a) => a.len(ctx),
            None => 0,
        }
    }

    fn pairs(&self, ctx: &Context) -> (r: Vec<(Vec<u8>, NixValue)>) {
        match self {
            Some(a) => a.pairs(ctx),
            None => {
                let out: Vec<(Vec<u8>, NixValue)> = Vec::new();
                assert(pairs_view(out@) =~= Seq::<(Seq<u8>, NixValue)>::empty());
                out
            },
        }
    }

    fn with_value(&self, key: &[u8], ctx: &Context) -> (r: Option<NixValue>) {
        match self {
            Some(a) => a.with_value(key, ctx),
            None => None,
        }
    }
}

/// Finds the attribute named `key` in a vector of attributes.
fn find_in_pairs(pairs: &Vec<(Vec<u8>, NixValue)>, key: &[u8]) -> (r: Option<NixValue>)
    requires
        names_of(pairs_view(pairs@)).no_duplicates(),
    ensures
        r == lookup(pairs_view(pairs@), key@),
{
    let ghost attrs = pairs_view(pairs@);
    let mut i: usize = 0;
    while i < pairs.len()
        invariant
            attrs == pairs_view(pairs@),
            names_of(attrs).no_duplicates(),
            0 <= i <= pairs@.len(),
            forall|j: int| 0 <= j < i ==> attrs[j].0 != key@,
        decreases pairs@.len() - i,
    {
        match compare_bytes(pairs[i].0.as_slice(), key) {
            KeyOrder::Equal => {
                proof {
                    lemma_lookup_at(attrs, i as int);
                }
                return Some(pairs[i].1);
            },
            _ => {
                proof {
                    lemma_lex_irreflexive(key@);
                }
            },
        }
        i = i + 1;
    }
    assert(!has_name(attrs, key@));
    None
}

/// An attribute set of the heap.
#[derive(Clone, Copy, Debug)]
pub struct NixAttrset {
    value: NixValue,
}

/// The attributes of the attribute set node `v` points to.
pub open spec fn node_attrs(ctx: &Context, v: NixValue) -> Seq<(Seq<u8>, NixValue)> {
    match ctx.node(v) {
        SpecNode::Attrset(attrs) => attrs.map_values(|a: (Seq<u8>, int)| (a.0, nix_value_at(a.1))),
        _ => Seq::empty(),
    }
}

impl NixAttrset {
    /// The value this attribute set is.
    pub closed spec fn spec_value(self) -> NixValue {
        self.value
    }

    /// The attribute set the value `value` is; it must be one.
    pub fn from_value(value: NixValue, ctx: &Context) -> (r: NixAttrset)
        requires
            ctx.holds(value),
            ctx.node(value) is Attrset,
        ensures
            r.spec_value() == value,
    {
        NixAttrset { value }
    }

    /// The value this attribute set is.
    pub fn as_value(self) -> (r: NixValue)
        ensures
            r == self.spec_value(),
    {
        self.value
    }
}

impl Attrset for NixAttrset {
    open spec fn spec_attrs(&self, ctx: &Context) -> Seq<(Seq<u8>, NixValue)> {
        node_attrs(ctx, self.spec_value())
    }

    open spec fn attrset_wf(&self, ctx: &Context) -> bool {
        &&& ctx.holds(self.spec_value())
        &&& ctx.node(self.spec_value()) is Attrset
        &&& ctx.node(self.spec_value())->Attrset_0.len() <= u32::MAX
    }

    proof fn lemma_attrs_wf(&self, ctx: &Context) {
        let v = self.spec_value();
        let raw = ctx.node(v)->Attrset_0;
        let attrs = self.spec_attrs(ctx);
        assert(node_wf(ctx.heap()[v.index()], v.index()));
        assert(names_of(attrs) =~= attr_names(raw));
        assert forall|i: int| 0 <= i < attrs.len() implies ctx.holds(#[trigger] attrs[i].1) by {
            assert(0 <= raw[i].1 < v.index());
            lemma_nix_value_at_index(raw[i].1);
        }
    }

    fn len(&self, ctx: &Context) -> (r: u32) {
        match ctx.node_ref(self.value) {
            Node::Attrset(attrs) => attrs.len() as u32,
            _ => 0,
        }
    }

    fn pairs(&self, ctx: &Context) -> (r: Vec<(Vec<u8>, NixValue)>) {
        let mut out: Vec<(Vec<u8>, NixValue)> = Vec::new();
        match ctx.node_ref(self.value) {
            Node::Attrset(attrs) => {
                let mut i: usize = 0;
                while i < attrs.len()
                    invariant
                        0 <= i <= attrs@.len(),
                        ctx.node(self.spec_value()) == SpecNode::Attrset(attrs_view(attrs@)),
                        pairs_view(out@) == node_attrs(ctx, self.spec_value()).take(i as int),
                    decreases attrs@.len() - i,
                {
                    let name = copy_bytes(&attrs[i].name);
                    let ghost prev = out@;
                    out.push((name, attrs[i].value));
                    proof {
                        lemma_nix_value_at(attrs@[i as int].value);
                        let na = node_attrs(ctx, self.spec_value());
                        let raw = attrs_view(attrs@);
                        assert(na == raw.map_values(|a: (Seq<u8>, int)| (a.0, nix_value_at(a.1))));
                        assert(na[i as int] == (attrs@[i as int].name@, attrs@[i as int].value));
                        assert(pairs_view(out@) =~= pairs_view(prev).push(na[i as int]));
                        assert(na.take(i + 1) =~= na.take(i as int).push(na[i as int]));
                    }
                    i = i + 1;
                }
            },
            _ => {},
        }
        out
    }

    fn with_value(&self, key: &[u8], ctx: &Context) -> (r: Option<NixValue>) {
        let pairs = self.pairs(ctx);
        proof {
            self.lemma_attrs_wf(ctx);
        }
        find_in_pairs(&pairs, key)
    }
}

/// What std's `String::from_utf8_lossy` makes of `bytes`.
pub uninterp spec fn utf8_lossy(bytes: Seq<u8>) -> Seq<char>;

/// The bytes are ASCII.
pub open spec fn is_ascii_bytes(bytes: Seq<u8>) -> bool {
    forall|i: int| 0 <= i < bytes.len() ==> bytes[i] < 0x80
}

/// Decodes `bytes` as UTF-8, replacing invalid sequences with U+FFFD (std's
/// `String::from_utf8_lossy`). Its documentation promises that valid UTF-8,
/// ASCII among it, is decoded unchanged; what replaces invalid sequences is
/// not stated here.
#[verifier::external_body]
fn from_utf8_lossy(bytes: &[u8]) -> (r: String)
    ensures
        r@ == utf8_lossy(bytes@),
        vstd::utf8::valid_utf8(bytes@) ==> r@ == vstd::utf8::decode_utf8(bytes@),
        is_ascii_bytes(bytes@) ==> r@ == bytes@.map_values(|b: u8| b as char),
{
    String::from_utf8_lossy(bytes).into_owned()
}

/// The message of the error of a missing attribute.
pub open spec fn missing_attribute_message(key: Seq<u8>) -> Seq<char> {
    "attribute '"@ + utf8_lossy(key) + "' missing"@
}

/// The error of a missing attribute.
pub open spec fn missing_attribute_error(key: Seq<u8>) -> SpecError {
    SpecError { kind: ErrorKind::Nix, message: missing_attribute_message(key) }
}

/// The error reported when the attribute named `key` is missing.
pub fn missing_attribute(key: &[u8]) -> (r: Error)
    ensures
        r@ == missing_attribute_error(key@),
        vstd::utf8::valid_utf8(key@) ==> r.message@ == "attribute '"@ + vstd::utf8::decode_utf8(key@) + "' missing"@,
        is_ascii_bytes(key@) ==> r.message@ == "attribute '"@ + key@.map_values(|b: u8| b as char) + "' missing"@,
{
    let mut m = String::new();
    push_str(&mut m, "attribute '");
    let name = from_utf8_lossy(key);
    push_str(&mut m, name.as_str());
    push_str(&mut m, "' missing");
    Error { kind: ErrorKind::Nix, message: m }
}

/// The error of getting an attribute that an attribute set does not have:
/// the attribute set and the attribute's name.
pub struct MissingAttributeError<A> {
    pub attrset: A,
    pub attr: Vec<u8>,
}

impl<A> ToError for MissingAttributeError<A> {
    open spec fn spec_error(&self) -> SpecError {
        missing_attribute_error(self.attr@)
    }

    fn kind(&self) -> (r: ErrorKind) {
        ErrorKind::Nix
    }

    fn format_message(&self) -> (r: String) {
        missing_attribute(self.attr.as_slice()).message
    }
}

/// The text put before the error of converting the attribute named `key`.
pub open spec fn attribute_error_prefix(key: Seq<u8>) -> Seq<char> {
    "error getting attribute "@ + debug_c_str(key) + ": "@
}

/// `e` is the error `inner` of converting the attribute named `key`, with
/// the attribute's name put before its message.
pub open spec fn is_attribute_error(e: Error, key: Seq<u8>, inner: Error) -> bool {
    e.kind == inner.kind && e.message@ == attribute_error_prefix(key) + inner.message@
}

/// `r` is the result of looking the attribute `key` of `attrs` up and
/// converting its value into a `T`.
pub open spec fn gets_opt<T: TryFromValue>(ctx: &Context, attrs: Seq<(Seq<u8>, NixValue)>, key: Seq<u8>, r: Result<Option<T>, Error>) -> bool {
    match lookup(attrs, key) {
        None => r matches Ok(None),
        Some(v) => match r {
            Ok(Some(t)) => T::converts(ctx, v, Ok(t)),
            Ok(None) => false,
            Err(e) => exists|inner: Error| #[trigger] T::converts(ctx, v, Err(inner)) && is_attribute_error(e, key, inner),
        },
    }
}

/// `r` is the result of getting the attribute `key` of `attrs` as a `T`: the
/// error of a missing attribute if there is none.
pub open spec fn gets<T: TryFromValue>(ctx: &Context, attrs: Seq<(Seq<u8>, NixValue)>, key: Seq<u8>, r: Result<T, Error>) -> bool {
    match lookup(attrs, key) {
        None => r matches Err(e) && e@ == missing_attribute_error(key),
        Some(_) => gets_opt(ctx, attrs, key, match r {
            Ok(t) => Ok(Some(t)),
            Err(e) => Err(e),
        }),
    }
}

impl NixAttrset {
    /// The value of the attribute `key` converted into a `T`, or `None` if
    /// there is no such attribute.
    pub fn get_opt<T: TryFromValue>(self, key: &[u8], ctx: &Context) -> (r: Result<Option<T>, Error>)
        requires
            ctx.wf(),
            self.attrset_wf(ctx),
        ensures
            gets_opt(ctx, self.spec_attrs(ctx), key@, r),
    {
        proof {
            self.lemma_attrs_wf(ctx);
        }
        match self.with_value(key, ctx) {
            None => Ok(None),
            Some(v) => match T::try_from_value(v, ctx) {
                Ok(t) => Ok(Some(t)),
                Err(inner) => {
                    let mut prefix = String::new();
                    push_str(&mut prefix, "error getting attribute ");
                    push_debug_c_str(&mut prefix, key);
                    push_str(&mut prefix, ": ");
                    push_str(&mut prefix, inner.message.as_str());
                    let e = Error { kind: inner.kind, message: prefix };
                    assert(is_attribute_error(e, key@, inner));
                    Err(e)
                },
            },
        }
    }

    /// The value of the attribute `key` converted into a `T`; an error if
    /// there is no such attribute.
    pub fn get<T: TryFromValue>(self, key: &[u8], ctx: &Context) -> (r: Result<T, Error>)
        requires
            ctx.wf(),
            self.attrset_wf(ctx),
        ensures
            gets(ctx, self.spec_attrs(ctx), key@, r),
    {
        match self.get_opt::<T>(key, ctx) {
            Ok(Some(t)) => Ok(t),
            Ok(None) => Err(missing_attribute(key)),
            Err(e) => Err(e),
        }
    }
}

impl TryFromValue for NixAttrset {
    open spec fn converts(ctx: &Context, v: NixValue, r: Result<NixAttrset, Error>) -> bool {
        match ctx.node(ctx.forced(v)) {
            SpecNode::Attrset(attrs) => r matches Ok(a) && a.spec_value() == ctx.forced(v) && ctx.holds(ctx.forced(v))
                && attrs.len() <= u32::MAX,
            other => is_mismatch(r, ValueKind::Attrset, node_kind(other)),
        }
    }

    fn try_from_value(value: NixValue, ctx: &Context) -> (r: Result<NixAttrset, Error>) {
        let v = ctx.force(value);
        match ctx.node_ref(v) {
            Node::Attrset(attrs) => {
                assert(node_wf(ctx.heap()[v.index()], v.index()));
                Ok(NixAttrset { value: v })
            },
            _ => Err(crate::error::TypeMismatchError { expected: ValueKind::Attrset, found: ctx.kind(v) }.to_error()),
        }
    }
}

/// The bytes of an ASCII text.
pub open spec fn ascii_bytes(s: Seq<char>) -> Seq<u8> {
    s.map_values(|c: char| c as u8)
}

/// The bytes of the ASCII literal `s`.
pub fn literal_bytes(s: &'static str) -> (r: &'static [u8])
    requires
        vstd::string::is_ascii(s),
    ensures
        r@ == ascii_bytes(s@),
{
    proof {
        vstd::string::is_ascii_spec_bytes(s);
    }
    let r = s.as_bytes();
    assert(r@ =~= ascii_bytes(s@));
    r
}

/// An attribute set that is a derivation: its `type` attribute is the
/// string `derivation`.
#[derive(Clone, Copy, Debug)]
pub struct NixDerivation {
    inner: NixAttrset,
}

/// The message of the error of an attribute set that is not a derivation.
pub open spec fn not_a_derivation_message() -> Seq<char> {
    "not a derivation"@
}

impl NixDerivation {
    /// The attribute set of the derivation.
    pub closed spec fn spec_inner(self) -> NixAttrset {
        self.inner
    }

    /// The attribute set of the derivation.
    pub fn as_attrset(self) -> (r: NixAttrset)
        ensures
            r == self.spec_inner(),
    {
        self.inner
    }

    /// The output path of the derivation: its `outPath` attribute, which
    /// must be a string.
    pub fn out_path_as_string(&self, ctx: &Context) -> (r: Result<String, Error>)
        requires
            ctx.wf(),
            self.attrset_wf(ctx),
        ensures
            gets(ctx, self.spec_attrs(ctx), ascii_bytes("outPath"@), r),
    {
        proof {
            reveal_strlit("outPath");
        }
        let key = literal_bytes("outPath");
        self.inner.get::<String>(key, ctx)
    }
}

impl Attrset for NixDerivation {
    open spec fn spec_attrs(&self, ctx: &Context) -> Seq<(Seq<u8>, NixValue)> {
        self.spec_inner().spec_attrs(ctx)
    }

    open spec fn attrset_wf(&self, ctx: &Context) -> bool {
        self.spec_inner().attrset_wf(ctx)
    }

    proof fn lemma_attrs_wf(&self, ctx: &Context) {
        self.inner.lemma_attrs_wf(ctx);
    }

    fn len(&self, ctx: &Context) -> (r: u32) {
        self.inner.len(ctx)
    }

    fn pairs(&self, ctx: &Context) -> (r: Vec<(Vec<u8>, NixValue)>) {
        self.inner.pairs(ctx)
    }

    fn with_value(&self, key: &[u8], ctx: &Context) -> (r: Option<NixValue>) {
        self.inner.with_value(key, ctx)
    }
}

impl TryFromValue for NixDerivation {
    /// A value converts into a derivation if it evaluates to an attribute
    /// set whose `type` attribute evaluates to the string `derivation`.
    open spec fn converts(ctx: &Context, v: NixValue, r: Result<NixDerivation, Error>) -> bool {
        let forced = ctx.forced(v);
        let key = ascii_bytes("type"@);
        match ctx.node(forced) {
            SpecNode::Attrset(_) => match lookup(node_attrs(ctx, forced), key) {
                None => r matches Err(e) && e@ == missing_attribute_error(key),
                Some(t) => match ctx.node(ctx.forced(t)) {
                    SpecNode::String(s) => if s == "derivation"@ {
                        r matches Ok(d) && d.spec_inner().spec_value() == forced
                    } else {
                        r matches Err(e) && e@ == (SpecError { kind: ErrorKind::Nix, message: not_a_derivation_message() })
                    },
                    other => r matches Err(e) && e.kind == ErrorKind::Nix && e.message@ == attribute_error_prefix(key)
                        + crate::error::spec_type_mismatch_message(crate::error::TypeMismatchError {
                        expected: ValueKind::String,
                        found: node_kind(other),
                    }),
                },
            },
            other => is_mismatch(r, ValueKind::Attrset, node_kind(other)),
        }
    }

    fn try_from_value(value: NixValue, ctx: &Context) -> (r: Result<NixDerivation, Error>) {
        let attrset = NixAttrset::try_from_value(value, ctx)?;
        proof {
            reveal_strlit("type");
            reveal_strlit("derivation");
        }
        let key = literal_bytes("type");
        let ty = attrset.get::<String>(key, ctx)?;
        let chars = crate::text::chars_of(ty.as_str());
        if crate::text::vec_eq_str(&chars, "derivation") {
            Ok(NixDerivation { inner: attrset })
        } else {
            Err(Error::from_str(ErrorKind::Nix, "not a derivation"))
        }
    }
}

/// An attribute set written in the source: its names and their values.
pub struct LiteralAttrset {
    keys: Vec<Vec<u8>>,
    values: Vec<NixValue>,
}

/// The attributes of a literal attribute set: each name with the value at
/// the same position.
pub open spec fn literal_attrs(keys: Seq<Seq<u8>>, values: Seq<NixValue>) -> Seq<(Seq<u8>, NixValue)> {
    Seq::new(keys.len(), |i: int| (keys[i], values[i]))
}

impl LiteralAttrset {
    /// The names.
    pub closed spec fn spec_keys(&self) -> Seq<Seq<u8>> {
        crate::lex::keys_view(self.keys@)
    }

    /// The values.
    pub closed spec fn spec_values(&self) -> Seq<NixValue> {
        self.values@
    }

    /// The attribute set with the names `keys` and the values `values`, one
    /// for each name.
    pub fn new(keys: Vec<Vec<u8>>, values: Vec<NixValue>) -> (r: LiteralAttrset)
        requires
            keys@.len() == values@.len(),
        ensures
            r.spec_keys() == crate::lex::keys_view(keys@),
            r.spec_values() == values@,
    {
        LiteralAttrset { keys, values }
    }

    /// The name at position `idx`.
    pub fn get_key(&self, idx: u32) -> (r: &[u8])
        requires
            idx < self.spec_keys().len(),
        ensures
            r@ == self.spec_keys()[idx as int],
    {
        self.keys[idx as usize].as_slice()
    }
}

impl Attrset for LiteralAttrset {
    open spec fn spec_attrs(&self, ctx: &Context) -> Seq<(Seq<u8>, NixValue)> {
        literal_attrs(self.spec_keys(), self.spec_values())
    }

    open spec fn attrset_wf(&self, ctx: &Context) -> bool {
        &&& self.spec_keys().len() == self.spec_values().len()
        &&& attrs_wf(ctx, self.spec_attrs(ctx))
    }

    proof fn lemma_attrs_wf(&self, ctx: &Context) {
    }

    fn len(&self, ctx: &Context) -> (r: u32) {
        self.keys.len() as u32
    }

    fn pairs(&self, ctx: &Context) -> (r: Vec<(Vec<u8>, NixValue)>) {
        let mut out: Vec<(Vec<u8>, NixValue)> = Vec::new();
        let mut i: usize = 0;
        while i < self.keys.len()
            invariant
                self.attrset_wf(ctx),
                0 <= i <= self.keys@.len(),
                pairs_view(out@) == self.spec_attrs(ctx).take(i as int),
            decreases self.keys@.len() - i,
        {
            let name = copy_bytes(&self.keys[i]);
            let ghost prev = out@;
            out.push((name, self.values[i]));
            proof {
                let a = self.spec_attrs(ctx);
                assert(pairs_view(out@) =~= pairs_view(prev).push(a[i as int]));
                assert(a.take(i + 1) =~= a.take(i as int).push(a[i as int]));
            }
            i = i + 1;
        }
        assert(self.spec_attrs(ctx).take(i as int) =~= self.spec_attrs(ctx));
        out
    }

    fn with_value(&self, key: &[u8], ctx: &Context) -> (r: Option<NixValue>) {
        let ghost attrs = self.spec_attrs(ctx);
        let mut i: usize = 0;
        while i < self.keys.len()
            invariant
                self.attrset_wf(ctx),
                attrs == self.spec_attrs(ctx),
                0 <= i <= self.keys@.len(),
                forall|j: int| 0 <= j < i ==> attrs[j].0 != key@,
            decreases self.keys@.len() - i,
        {
            match compare_bytes(self.keys[i].as_slice(), key) {
                KeyOrder::Equal => {
                    proof {
                        lemma_lookup_at(attrs, i as int);
                    }
                    return Some(self.values[i]);
                },
                _ => {
                    proof {
                        lemma_lex_irreflexive(key@);
                    }
                },
            }
            i = i + 1;
        }
        assert(!has_name(attrs, key@));
        None
    }
}

} // verus!
