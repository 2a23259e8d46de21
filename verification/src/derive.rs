//! What the derive macros of the bindings check and decide about the struct
//! they are applied to: its name, its shape, its doc comment and the
//! attributes on it and on its fields, described by plain values. Writing
//! out the code itself is left to the macros.

use vstd::prelude::*;

use crate::naming::{Rename, SpecRename, renamed, to_camel_case};
use crate::renames::str_eq;
use crate::rustc::string_of;
use crate::text::{chars_of, decimal, index_of, index_of_exec, push_char, push_range, push_str, u64_to_string};

verus! {

/// The most arguments a Nix primop can take.
pub const MAX_PRIMOP_ARITY: u8 = 8;

/// The fields of a struct: none, named ones (their names, in order), or
/// unnamed ones (their number).
#[derive(Debug)]
pub enum FieldsShape {
    Unit,
    Named(Vec<String>),
    Unnamed(usize),
}

/// What a derive macro is applied to.
#[derive(Debug)]
pub enum ItemShape {
    Struct(FieldsShape),
    Enum,
    Union,
}

/// The view of a result whose both sides are strings.
pub open spec fn text_result(r: Result<String, String>) -> Result<Seq<char>, Seq<char>> {
    match r {
        Ok(s) => Ok(s@),
        Err(e) => Err(e@),
    }
}

// ---------------------------------------------------------------------------
// Primops.

/// `c` in ASCII lower case; other characters are unchanged.
pub open spec fn ascii_downcase(c: char) -> char {
    if 'A' <= c <= 'Z' {
        ((c as int) + 32) as char
    } else {
        c
    }
}

/// The name of the primop a struct stands for: the struct's name, which
/// must start with an ASCII capital, with that capital in lower case.
pub open spec fn spec_primop_name(struct_name: Seq<char>) -> Result<Seq<char>, Seq<char>> {
    if struct_name.len() > 0 && 'A' <= struct_name[0] <= 'Z' {
        Ok(seq![ascii_downcase(struct_name[0])] + struct_name.skip(1))
    } else {
        Err("PrimOp struct name must UpperCamelCase"@)
    }
}

/// The name of the primop the struct named `struct_name` stands for.
pub fn primop_name(struct_name: &str) -> (r: Result<String, String>)
    ensures
        text_result(r) == spec_primop_name(struct_name@),
{
    let chars = chars_of(struct_name);
    let n = chars.len();
    if n > 0 && 'A' <= chars[0] && chars[0] <= 'Z' {
        let lower = chars[0] as u32 + 32;
        assert(lower < 128);
        let mut out = String::new();
        push_char(&mut out, (lower as u8) as char);
        push_range(&mut out, &chars, 1, n);
        assert(chars@.subrange(1, n as int) =~= chars@.skip(1));
        assert(out@ =~= seq![ascii_downcase(chars@[0])] + chars@.skip(1));
        Ok(out)
    } else {
        proof {
            reveal_strlit("PrimOp struct name must UpperCamelCase");
        }
        Err(string_of("PrimOp struct name must UpperCamelCase"))
    }
}

/// How the value of a primop struct is written: `Self`, `Self {}` or
/// `Self()`.
#[derive(Clone, Copy, Debug, PartialEq, Eq, Structural)]
pub enum PrimOpConstructor {
    Unit,
    EmptyNamed,
    EmptyTuple,
}

/// The constructor of a primop struct, which must be a struct without
/// fields.
pub open spec fn spec_primop_constructor(item: ItemShape) -> Result<PrimOpConstructor, Seq<char>> {
    match item {
        ItemShape::Enum => Err("PrimOp cannot be derived for enums"@),
        ItemShape::Union => Err("PrimOp cannot be derived for unions"@),
        ItemShape::Struct(FieldsShape::Unit) => Ok(PrimOpConstructor::Unit),
        ItemShape::Struct(FieldsShape::Named(names)) if names@.len() == 0 => Ok(PrimOpConstructor::EmptyNamed),
        ItemShape::Struct(FieldsShape::Unnamed(n)) if n == 0 => Ok(PrimOpConstructor::EmptyTuple),
        _ => Err(
            "PrimOp can only be derived for structs with no fields (unit structs, empty named structs, or empty tuple structs)"@,
        ),
    }
}

/// The view of a result whose error is a string.
pub open spec fn result_with_text<T>(r: Result<T, String>) -> Result<T, Seq<char>> {
    match r {
        Ok(t) => Ok(t),
        Err(e) => Err(e@),
    }
}

/// The constructor of the primop struct `item`.
pub fn primop_constructor(item: &ItemShape) -> (r: Result<PrimOpConstructor, String>)
    ensures
        result_with_text(r) == spec_primop_constructor(*item),
{
    proof {
        reveal_strlit("PrimOp cannot be derived for enums");
        reveal_strlit("PrimOp cannot be derived for unions");
        reveal_strlit(
            "PrimOp can only be derived for structs with no fields (unit structs, empty named structs, or empty tuple structs)",
        );
    }
    match item {
        ItemShape::Enum => Err(string_of("PrimOp cannot be derived for enums")),
        ItemShape::Union => Err(string_of("PrimOp cannot be derived for unions")),
        ItemShape::Struct(FieldsShape::Unit) => Ok(PrimOpConstructor::Unit),
        ItemShape::Struct(FieldsShape::Named(names)) if names.len() == 0 => Ok(PrimOpConstructor::EmptyNamed),
        ItemShape::Struct(FieldsShape::Unnamed(n)) if *n == 0 => Ok(PrimOpConstructor::EmptyTuple),
        _ => Err(
            string_of(
                "PrimOp can only be derived for structs with no fields (unit structs, empty named structs, or empty tuple structs)",
            ),
        ),
    }
}

/// A doc comment line without the one space that follows `///`.
pub open spec fn strip_space(line: Seq<char>) -> Seq<char> {
    if line.len() > 0 && line[0] == ' ' {
        line.skip(1)
    } else {
        line
    }
}

/// The documentation `docs` with the doc comment line `line` added: on a
/// line of its own, unless nothing came before.
pub open spec fn add_doc_line(docs: Seq<char>, line: Seq<char>) -> Seq<char> {
    if docs.len() == 0 {
        strip_space(line)
    } else {
        docs + seq!['\n'] + strip_space(line)
    }
}

/// The documentation made of the doc comment lines `lines`, or `None` if
/// one of them holds a NUL character.
pub open spec fn joined_docs(lines: Seq<Seq<char>>) -> Option<Seq<char>>
    decreases lines.len(),
{
    if lines.len() == 0 {
        Some(Seq::empty())
    } else {
        match joined_docs(lines.drop_last()) {
            None => None,
            Some(d) => if index_of(lines.last(), '\0') is Some {
                None
            } else {
                Some(add_doc_line(d, lines.last()))
            },
        }
    }
}

/// The documentation of a primop, from the doc comment lines of its
/// struct: it must hold no NUL character and not be empty.
pub open spec fn spec_primop_docs(lines: Seq<Seq<char>>) -> Result<Seq<char>, Seq<char>> {
    match joined_docs(lines) {
        None => Err("PrimOp doc comment cannot contain NUL byte"@),
        Some(d) => if d.len() == 0 {
            Err("PrimOp derive requires a doc comment on the struct"@)
        } else {
            Ok(d)
        },
    }
}

/// The views of strings.
pub open spec fn texts(v: Seq<String>) -> Seq<Seq<char>> {
    v.map_values(|s: String| s@)
}

/// The documentation of a primop whose struct has the doc comment lines
/// `doc_lines`.
pub fn primop_docs(doc_lines: &Vec<String>) -> (r: Result<String, String>)
    ensures
        text_result(r) == spec_primop_docs(texts(doc_lines@)),
{
    let ghost lines = texts(doc_lines@);
    let mut docs = String::new();
    let mut i: usize = 0;
    while i < doc_lines.len()
        invariant
            i <= doc_lines@.len(),
            lines == texts(doc_lines@),
            joined_docs(lines.take(i as int)) == Some(docs@),
        decreases doc_lines@.len() - i,
    {
        let chars = chars_of(doc_lines[i].as_str());
        assert(lines.take(i + 1).drop_last() =~= lines.take(i as int));
        assert(lines.take(i + 1).last() == chars@);
        if index_of_exec(&chars, '\0').is_some() {
            proof {
                reveal_strlit("PrimOp doc comment cannot contain NUL byte");
                lemma_nul_stays(lines, i as int + 1);
            }
            return Err(string_of("PrimOp doc comment cannot contain NUL byte"));
        }
        if !docs.as_str().is_empty() {
            push_char(&mut docs, '\n');
        }
        let ghost before = docs@;
        if chars.len() > 0 && chars[0] == ' ' {
            push_range(&mut docs, &chars, 1, chars.len());
            assert(chars@.subrange(1, chars@.len() as int) =~= chars@.skip(1));
        } else {
            push_range(&mut docs, &chars, 0, chars.len());
            assert(chars@.subrange(0, chars@.len() as int) =~= chars@);
        }
        i = i + 1;
    }
    assert(lines.take(i as int) =~= lines);
    if docs.as_str().is_empty() {
        proof {
            reveal_strlit("PrimOp derive requires a doc comment on the struct");
        }
        Err(string_of("PrimOp derive requires a doc comment on the struct"))
    } else {
        Ok(docs)
    }
}

/// Once a doc comment line holds a NUL character, so do all the lines up
/// to any later one.
proof fn lemma_nul_stays(lines: Seq<Seq<char>>, k: int)
    requires
        0 < k <= lines.len(),
        joined_docs(lines.take(k)) is None,
    ensures
        joined_docs(lines) is None,
    decreases lines.len() - k,
{
    if k < lines.len() {
        assert(lines.take(k + 1).drop_last() =~= lines.take(k));
        lemma_nul_stays(lines, k + 1);
    } else {
        assert(lines.take(k) =~= lines);
    }
}

// ---------------------------------------------------------------------------
// The fields of `Args` and `TryFromValue` structs.

/// The named fields of a struct that `TryFromValue` is derived for: it
/// must be a struct with at least one named field.
pub open spec fn spec_try_from_fields_error(item: ItemShape) -> Option<Seq<char>> {
    match item {
        ItemShape::Enum => Some("TryFromValue cannot be derived for enums"@),
        ItemShape::Union => Some("TryFromValue cannot be derived for unions"@),
        ItemShape::Struct(FieldsShape::Named(names)) => if names@.len() == 0 {
            Some("struct must have at least one field"@)
        } else {
            None
        },
        ItemShape::Struct(_) => Some("TryFromValue can only be derived for structs with named fields"@),
    }
}

/// The names of the fields of a struct that `TryFromValue` is derived for.
pub fn try_from_value_fields(item: &ItemShape) -> (r: Result<&Vec<String>, String>)
    ensures
        match spec_try_from_fields_error(*item) {
            Some(m) => r matches Err(e) && e@ == m,
            None => r matches Ok(names) && item matches ItemShape::Struct(FieldsShape::Named(n)) && *names == n,
        },
{
    proof {
        reveal_strlit("TryFromValue cannot be derived for enums");
        reveal_strlit("TryFromValue cannot be derived for unions");
        reveal_strlit("struct must have at least one field");
        reveal_strlit("TryFromValue can only be derived for structs with named fields");
    }
    match item {
        ItemShape::Enum => Err(string_of("TryFromValue cannot be derived for enums")),
        ItemShape::Union => Err(string_of("TryFromValue cannot be derived for unions")),
        ItemShape::Struct(FieldsShape::Named(names)) => if names.len() == 0 {
            Err(string_of("struct must have at least one field"))
        } else {
            Ok(names)
        },
        ItemShape::Struct(_) => Err(string_of("TryFromValue can only be derived for structs with named fields")),
    }
}

/// The named fields of a struct that `Args` is derived for: it must be a
/// struct with at least one named field and at most as many as a primop
/// takes arguments.
pub open spec fn spec_args_fields_error(item: ItemShape) -> Option<Seq<char>> {
    match item {
        ItemShape::Enum => Some("Args cannot be derived for enums"@),
        ItemShape::Union => Some("Args cannot be derived for unions"@),
        ItemShape::Struct(FieldsShape::Named(names)) => if names@.len() == 0 {
            Some("Args can only be derived for structs with at least one named field"@)
        } else if names@.len() > MAX_PRIMOP_ARITY {
            Some(
                "In Nix, functions can have at most "@ + decimal(MAX_PRIMOP_ARITY as int)
                    + " arguments, but this struct has "@ + decimal(names@.len() as int) + " fields"@,
            )
        } else {
            None
        },
        ItemShape::Struct(_) => Some("Args can only be derived for structs with named fields"@),
    }
}

/// The names of the fields of a struct that `Args` is derived for.
pub fn args_fields(item: &ItemShape) -> (r: Result<&Vec<String>, String>)
    ensures
        match spec_args_fields_error(*item) {
            Some(m) => r matches Err(e) && e@ == m,
            None => r matches Ok(names) && item matches ItemShape::Struct(FieldsShape::Named(n)) && *names == n,
        },
{
    proof {
        reveal_strlit("Args cannot be derived for enums");
        reveal_strlit("Args cannot be derived for unions");
        reveal_strlit("Args can only be derived for structs with at least one named field");
        reveal_strlit("Args can only be derived for structs with named fields");
    }
    match item {
        ItemShape::Enum => Err(string_of("Args cannot be derived for enums")),
        ItemShape::Union => Err(string_of("Args cannot be derived for unions")),
        ItemShape::Struct(FieldsShape::Named(names)) => if names.len() == 0 {
            Err(string_of("Args can only be derived for structs with at least one named field"))
        } else if names.len() > MAX_PRIMOP_ARITY as usize {
            let mut m = string_of("In Nix, functions can have at most ");
            let most = u64_to_string(MAX_PRIMOP_ARITY as u64);
            push_str(&mut m, most.as_str());
            push_str(&mut m, " arguments, but this struct has ");
            let len = u64_to_string(names.len() as u64);
            push_str(&mut m, len.as_str());
            push_str(&mut m, " fields");
            Err(m)
        } else {
            Ok(names)
        },
        ItemShape::Struct(_) => Err(string_of("Args can only be derived for structs with named fields")),
    }
}

/// The kind of a generic parameter.
#[derive(Clone, Copy, Debug, PartialEq, Eq, Structural)]
pub enum GenericParamKind {
    Lifetime,
    Type,
    Const,
}

/// Whether an `Args` or `TryFromValue` struct with the generic parameters
/// `params` has a lifetime parameter: it may have none, or one lifetime.
pub open spec fn spec_lifetime_generic(params: Seq<GenericParamKind>) -> Result<bool, Seq<char>> {
    if params.len() == 0 {
        Ok(false)
    } else if params.len() == 1 && params[0] == GenericParamKind::Lifetime {
        Ok(true)
    } else {
        Err("Args can only have zero or one lifetime generic parameter"@)
    }
}

/// Whether the struct with the generic parameters `params` has a lifetime
/// parameter.
pub fn lifetime_generic(params: &Vec<GenericParamKind>) -> (r: Result<bool, String>)
    ensures
        result_with_text(r) == spec_lifetime_generic(params@),
{
    if params.len() == 0 {
        Ok(false)
    } else if params.len() == 1 && params[0] == GenericParamKind::Lifetime {
        Ok(true)
    } else {
        proof {
            reveal_strlit("Args can only have zero or one lifetime generic parameter");
        }
        Err(string_of("Args can only have zero or one lifetime generic parameter"))
    }
}

// ---------------------------------------------------------------------------
// The `try_from` attributes.

/// The value given to a nested meta of an attribute, after its `=`.
#[derive(Debug)]
pub enum MetaValue {
    /// An identifier, such as `camelCase`.
    Ident(String),
    /// A literal, by the text of its token: a string literal with its
    /// quotes.
    Literal(String),
    /// Any other expression, by its text.
    Expr(String),
}

impl MetaValue {
    /// The text of the value.
    pub open spec fn text(self) -> Seq<char> {
        match self {
            MetaValue::Ident(t) => t@,
            MetaValue::Literal(t) => t@,
            MetaValue::Expr(t) => t@,
        }
    }
}

/// A nested meta of an attribute, such as `rename_all = camelCase` in
/// `#[try_from(rename_all = camelCase)]`: its path and its value, if it has
/// one.
#[derive(Debug)]
pub struct Meta {
    pub path: String,
    pub value: Option<MetaValue>,
}

/// An attribute on a struct or a field: its path, and the nested metas it
/// holds.
#[derive(Debug)]
pub struct DeriveAttribute {
    pub path: String,
    pub metas: Vec<Meta>,
}

/// Whether attributes sit on a struct or on one of its fields.
#[derive(Clone, Copy, Debug, PartialEq, Eq, Structural)]
pub enum AttributePosition {
    Field,
    Struct,
}

/// The errors of reading the `try_from` attributes. Those that the parsing
/// of the tokens reports carry no message here: it is the parser's.
#[derive(Debug)]
pub enum AttributeError {
    /// The macro's own error, with its message.
    Message(String),
    /// A meta that takes a value has no `=`.
    MissingValue,
    /// A meta that takes no value has one: a `,` was expected.
    UnexpectedValue,
    /// A rename is neither an identifier nor a literal.
    ExpectedLiteral,
    /// A field's attribute name holds a NUL character, which a C string
    /// cannot.
    NulInName,
}

/// The view of an error of reading attributes.
pub enum SpecAttributeError {
    Message(Seq<char>),
    MissingValue,
    UnexpectedValue,
    ExpectedLiteral,
    NulInName,
}

impl View for AttributeError {
    type V = SpecAttributeError;

    open spec fn view(&self) -> SpecAttributeError {
        match self {
            AttributeError::Message(m) => SpecAttributeError::Message(m@),
            AttributeError::MissingValue => SpecAttributeError::MissingValue,
            AttributeError::UnexpectedValue => SpecAttributeError::UnexpectedValue,
            AttributeError::ExpectedLiteral => SpecAttributeError::ExpectedLiteral,
            AttributeError::NulInName => SpecAttributeError::NulInName,
        }
    }
}

/// The error with the macro's message `m`.
pub open spec fn message(m: Seq<char>) -> SpecAttributeError {
    SpecAttributeError::Message(m)
}

/// `s` without the double quotes at its start.
pub open spec fn trim_start_quotes(s: Seq<char>) -> Seq<char>
    decreases s.len(),
{
    if s.len() > 0 && s[0] == '"' {
        trim_start_quotes(s.skip(1))
    } else {
        s
    }
}

/// `s` without the double quotes at its end.
pub open spec fn trim_end_quotes(s: Seq<char>) -> Seq<char>
    decreases s.len(),
{
    if s.len() > 0 && s.last() == '"' {
        trim_end_quotes(s.drop_last())
    } else {
        s
    }
}

/// `s` without the double quotes at its start and end.
pub open spec fn trim_quotes(s: Seq<char>) -> Seq<char> {
    trim_end_quotes(trim_start_quotes(s))
}

/// The text of `chars` without the double quotes at its start and end.
fn trimmed_quotes(chars: &Vec<char>) -> (r: String)
    ensures
        r@ == trim_quotes(chars@),
{
    let n = chars.len();
    let mut from: usize = 0;
    assert(chars@.skip(0) =~= chars@);
    while from < n && chars[from] == '"'
        invariant
            from <= n == chars@.len(),
            trim_start_quotes(chars@.skip(from as int)) == trim_start_quotes(chars@),
        decreases n - from,
    {
        assert(chars@.skip(from as int).skip(1) =~= chars@.skip(from + 1));
        from = from + 1;
    }
    let ghost start = chars@.skip(from as int);
    assert(trim_start_quotes(start) == start);
    let mut to: usize = n;
    assert(chars@.subrange(from as int, n as int) =~= start);
    while to > from && chars[to - 1] == '"'
        invariant
            from <= to <= n == chars@.len(),
            start == chars@.skip(from as int),
            trim_end_quotes(chars@.subrange(from as int, to as int)) == trim_end_quotes(start),
        decreases to - from,
    {
        assert(chars@.subrange(from as int, to as int).drop_last() =~= chars@.subrange(from as int, to - 1));
        to = to - 1;
    }
    let mut out = String::new();
    push_range(&mut out, chars, from, to);
    out
}

/// The rename given by the value `value` of a `rename` or `rename_all`
/// meta: `camelCase`, or the text of a string literal, which only a field
/// can be renamed to.
pub open spec fn spec_parse_rename(value: Option<MetaValue>, pos: AttributePosition) -> Result<SpecRename, SpecAttributeError> {
    match value {
        None => Err(SpecAttributeError::MissingValue),
        Some(MetaValue::Ident(i)) => if i@ == "camelCase"@ {
            Ok(SpecRename::CamelCase)
        } else {
            Err(message("unsupported rename value: "@ + i@))
        },
        Some(MetaValue::Literal(t)) => match pos {
            AttributePosition::Field => Ok(SpecRename::Replace(trim_quotes(t@))),
            AttributePosition::Struct => Err(message("literal string renames are only allowed on struct fields"@)),
        },
        Some(MetaValue::Expr(_)) => Err(SpecAttributeError::ExpectedLiteral),
    }
}

/// The view of a result of reading attributes.
pub open spec fn attr_result<T: View>(r: Result<T, AttributeError>) -> Result<T::V, SpecAttributeError> {
    match r {
        Ok(t) => Ok(t@),
        Err(e) => Err(e@),
    }
}

/// The rename given by the value `value` of a `rename` or `rename_all`
/// meta at `pos`.
pub fn parse_rename(value: &Option<MetaValue>, pos: AttributePosition) -> (r: Result<Rename, AttributeError>)
    ensures
        attr_result(r) == spec_parse_rename(*value, pos),
{
    match value {
        None => Err(AttributeError::MissingValue),
        Some(MetaValue::Ident(i)) => {
            if str_eq(i.as_str(), "camelCase") {
                proof {
                    reveal_strlit("camelCase");
                }
                Ok(Rename::CamelCase)
            } else {
                proof {
                    reveal_strlit("camelCase");
                    reveal_strlit("unsupported rename value: ");
                }
                let mut m = string_of("unsupported rename value: ");
                push_str(&mut m, i.as_str());
                Err(AttributeError::Message(m))
            }
        },
        Some(MetaValue::Literal(t)) => match pos {
            AttributePosition::Field => {
                let chars = chars_of(t.as_str());
                Ok(Rename::Replace(trimmed_quotes(&chars)))
            },
            AttributePosition::Struct => {
                proof {
                    reveal_strlit("literal string renames are only allowed on struct fields");
                }
                Err(AttributeError::Message(string_of("literal string renames are only allowed on struct fields")))
            },
        },
        Some(MetaValue::Expr(_)) => Err(AttributeError::ExpectedLiteral),
    }
}

/// What the `try_from` attributes of a struct or a field say: how its
/// fields, or the field, are renamed; whether missing attributes take the
/// default value; and the function that converts the field's value.
#[derive(Debug)]
pub struct Attributes {
    pub rename: Option<Rename>,
    pub default: bool,
    pub with: Option<String>,
}

/// The view of what the `try_from` attributes say.
pub struct SpecAttributes {
    pub rename: Option<SpecRename>,
    pub default: bool,
    pub with: Option<Seq<char>>,
}

impl View for Attributes {
    type V = SpecAttributes;

    open spec fn view(&self) -> SpecAttributes {
        SpecAttributes {
            rename: match self.rename {
                Some(r) => Some(r@),
                None => None,
            },
            default: self.default,
            with: match self.with {
                Some(w) => Some(w@),
                None => None,
            },
        }
    }
}

/// What no attribute says.
pub open spec fn no_attributes() -> SpecAttributes {
    SpecAttributes { rename: None, default: false, with: None }
}

/// The message of `with` and `default` given together.
pub open spec fn with_and_default_message() -> Seq<char> {
    "`with` and `default` attributes cannot be used together"@
}

/// What the attributes say once the meta `m` at `pos` is read after those
/// that said `a`: `rename_all` on structs and `rename` on fields give the
/// rename; `default` sets the default, unless `with` was given; `with`, on
/// fields only, gives the function, unless `default` was given; anything
/// else is refused.
pub open spec fn meta_step(a: SpecAttributes, m: Meta, pos: AttributePosition) -> Result<SpecAttributes, SpecAttributeError> {
    let p = m.path@;
    if p == "rename_all"@ {
        match pos {
            AttributePosition::Struct => match spec_parse_rename(m.value, pos) {
                Ok(r) => Ok(SpecAttributes { rename: Some(r), default: a.default, with: a.with }),
                Err(e) => Err(e),
            },
            AttributePosition::Field => Err(message("`rename_all` attribute is only allowed on structs"@)),
        }
    } else if p == "rename"@ {
        match pos {
            AttributePosition::Struct => Err(message("`rename` attribute is only allowed on struct fields"@)),
            AttributePosition::Field => match spec_parse_rename(m.value, pos) {
                Ok(r) => Ok(SpecAttributes { rename: Some(r), default: a.default, with: a.with }),
                Err(e) => Err(e),
            },
        }
    } else if p == "default"@ {
        if a.with is Some {
            Err(message(with_and_default_message()))
        } else if m.value is Some {
            Err(SpecAttributeError::UnexpectedValue)
        } else {
            Ok(SpecAttributes { rename: a.rename, default: true, with: a.with })
        }
    } else if p == "with"@ {
        if a.default {
            Err(message(with_and_default_message()))
        } else {
            match pos {
                AttributePosition::Struct => Err(message("`with` attribute is only allowed on struct fields"@)),
                AttributePosition::Field => match m.value {
                    None => Err(SpecAttributeError::MissingValue),
                    Some(v) => Ok(SpecAttributes { rename: a.rename, default: a.default, with: Some(v.text()) }),
                },
            }
        }
    } else {
        Err(message("unsupported attribute"@))
    }
}

/// What the metas `metas` at `pos` say, read in order; the first error
/// stops the reading.
pub open spec fn parse_metas(metas: Seq<Meta>, pos: AttributePosition) -> Result<SpecAttributes, SpecAttributeError>
    decreases metas.len(),
{
    if metas.len() == 0 {
        Ok(no_attributes())
    } else {
        match parse_metas(metas.drop_last(), pos) {
            Ok(a) => meta_step(a, metas.last(), pos),
            Err(e) => Err(e),
        }
    }
}

/// The metas of the `try_from` attributes among `attrs`, in order; other
/// attributes are not the macro's.
pub open spec fn try_from_metas(attrs: Seq<DeriveAttribute>) -> Seq<Meta>
    decreases attrs.len(),
{
    if attrs.len() == 0 {
        Seq::empty()
    } else {
        try_from_metas(attrs.drop_last()) + if attrs.last().path@ == "try_from"@ {
            attrs.last().metas@
        } else {
            Seq::empty()
        }
    }
}

/// Once reading metas fails, reading more fails the same way.
proof fn lemma_error_stays(metas: Seq<Meta>, more: Seq<Meta>, pos: AttributePosition)
    requires
        parse_metas(metas, pos) is Err,
    ensures
        parse_metas(metas + more, pos) == parse_metas(metas, pos),
    decreases more.len(),
{
    if more.len() == 0 {
        assert(metas + more =~= metas);
    } else {
        lemma_error_stays(metas, more.drop_last(), pos);
        assert((metas + more).drop_last() =~= metas + more.drop_last());
    }
}

/// Reads the meta `m` at `pos` into `this`.
fn apply_meta(this: &mut Attributes, m: &Meta, pos: AttributePosition) -> (r: Result<(), AttributeError>)
    ensures
        match meta_step(old(this)@, *m, pos) {
            Ok(a) => r is Ok && final(this)@ == a,
            Err(e) => r matches Err(x) && x@ == e,
        },
{
    proof {
        reveal_strlit("rename_all");
        reveal_strlit("rename");
        reveal_strlit("default");
        reveal_strlit("with");
        reveal_strlit("`rename_all` attribute is only allowed on structs");
        reveal_strlit("`rename` attribute is only allowed on struct fields");
        reveal_strlit("`with` and `default` attributes cannot be used together");
        reveal_strlit("`with` attribute is only allowed on struct fields");
        reveal_strlit("unsupported attribute");
    }
    let p = m.path.as_str();
    if str_eq(p, "rename_all") {
        match pos {
            AttributePosition::Struct => {
                let r = parse_rename(&m.value, pos)?;
                this.rename = Some(r);
                Ok(())
            },
            AttributePosition::Field => Err(
                AttributeError::Message(string_of("`rename_all` attribute is only allowed on structs")),
            ),
        }
    } else if str_eq(p, "rename") {
        match pos {
            AttributePosition::Struct => Err(
                AttributeError::Message(string_of("`rename` attribute is only allowed on struct fields")),
            ),
            AttributePosition::Field => {
                let r = parse_rename(&m.value, pos)?;
                this.rename = Some(r);
                Ok(())
            },
        }
    } else if str_eq(p, "default") {
        if this.with.is_some() {
            Err(AttributeError::Message(string_of("`with` and `default` attributes cannot be used together")))
        } else if m.value.is_some() {
            Err(AttributeError::UnexpectedValue)
        } else {
            this.default = true;
            Ok(())
        }
    } else if str_eq(p, "with") {
        if this.default {
            Err(AttributeError::Message(string_of("`with` and `default` attributes cannot be used together")))
        } else {
            match pos {
                AttributePosition::Struct => Err(
                    AttributeError::Message(string_of("`with` attribute is only allowed on struct fields")),
                ),
                AttributePosition::Field => match &m.value {
                    None => Err(AttributeError::MissingValue),
                    Some(v) => {
                        let text = match v {
                            MetaValue::Ident(t) => t.clone(),
                            MetaValue::Literal(t) => t.clone(),
                            MetaValue::Expr(t) => t.clone(),
                        };
                        this.with = Some(text);
                        Ok(())
                    },
                },
            }
        }
    } else {
        Err(AttributeError::Message(string_of("unsupported attribute")))
    }
}

/// What the `try_from` attributes among `attrs`, on a struct or a field as
/// `pos` says, say.
pub fn parse_attributes(attrs: &Vec<DeriveAttribute>, pos: AttributePosition) -> (r: Result<Attributes, AttributeError>)
    ensures
        attr_result(r) == parse_metas(try_from_metas(attrs@), pos),
{
    let mut this = Attributes { rename: None, default: false, with: None };
    let mut i: usize = 0;
    assert(attrs@.take(0) =~= Seq::<DeriveAttribute>::empty());
    while i < attrs.len()
        invariant
            i <= attrs@.len(),
            parse_metas(try_from_metas(attrs@.take(i as int)), pos) == Ok::<SpecAttributes, SpecAttributeError>(this@),
        decreases attrs@.len() - i,
    {
        let ghost before = try_from_metas(attrs@.take(i as int));
        assert(attrs@.take(i + 1).drop_last() =~= attrs@.take(i as int));
        let attr = &attrs[i];
        proof {
            reveal_strlit("try_from");
        }
        if str_eq(attr.path.as_str(), "try_from") {
            let metas = &attr.metas;
            let mut j: usize = 0;
            assert(before + metas@.take(0) =~= before);
            while j < metas.len()
                invariant
                    j <= metas@.len(),
                    i < attrs@.len(),
                    *attr == attrs@[i as int],
                    attr.path@ == "try_from"@,
                    metas@ == attr.metas@,
                    before == try_from_metas(attrs@.take(i as int)),
                    parse_metas(before + metas@.take(j as int), pos) == Ok::<SpecAttributes, SpecAttributeError>(this@),
                decreases metas@.len() - j,
            {
                let ghost done = before + metas@.take(j as int);
                assert((before + metas@.take(j + 1)).drop_last() =~= done);
                assert((before + metas@.take(j + 1)).last() == metas@[j as int]);
                match apply_meta(&mut this, &metas[j], pos) {
                    Ok(()) => {},
                    Err(e) => {
                        proof {
                            let rest = metas@.skip(j + 1);
                            let later = attrs@.skip(i + 1);
                            assert(before + metas@.take(j + 1) + rest =~= before + metas@);
                            lemma_error_stays(before + metas@.take(j + 1), rest, pos);
                            assert(attrs@.take(i + 1).drop_last() =~= attrs@.take(i as int));
                            assert(attrs@.take(i + 1).last() == attrs@[i as int]);
                            assert(try_from_metas(attrs@.take(i + 1)) == before + metas@);
                            lemma_metas_split(attrs@, i + 1);
                            lemma_error_stays(before + metas@, try_from_metas(later), pos);
                        }
                        return Err(e);
                    },
                }
                j = j + 1;
            }
            assert(metas@.take(j as int) =~= metas@);
            assert(try_from_metas(attrs@.take(i + 1)) =~= before + metas@);
        } else {
            assert(try_from_metas(attrs@.take(i + 1)) =~= before);
        }
        i = i + 1;
    }
    assert(attrs@.take(i as int) =~= attrs@);
    Ok(this)
}

/// The metas of a list of attributes are those of its first `k`
/// attributes, then those of the rest.
proof fn lemma_metas_split(attrs: Seq<DeriveAttribute>, k: int)
    requires
        0 <= k <= attrs.len(),
    ensures
        try_from_metas(attrs) == try_from_metas(attrs.take(k)) + try_from_metas(attrs.skip(k)),
    decreases attrs.len(),
{
    if k == attrs.len() {
        assert(attrs.take(k) =~= attrs);
        assert(attrs.skip(k) =~= Seq::<DeriveAttribute>::empty());
        assert(try_from_metas(attrs) + Seq::<Meta>::empty() =~= try_from_metas(attrs));
    } else {
        let init = attrs.drop_last();
        lemma_metas_split(init, k);
        assert(init.take(k) =~= attrs.take(k));
        assert(attrs.skip(k).drop_last() =~= init.skip(k));
        assert(attrs.skip(k).last() == attrs.last());
    }
}

// ---------------------------------------------------------------------------
// The fields of a `TryFromValue` struct.

/// How a field's value is taken from the attribute set.
#[derive(Debug)]
pub enum FieldInit {
    /// The attribute, converted; the field's default value if it is
    /// missing.
    GetOrDefault,
    /// The attribute's value, handed to the function whose text is given.
    With(String),
    /// The attribute, converted.
    Get,
}

/// The view of how a field's value is taken.
pub enum SpecFieldInit {
    GetOrDefault,
    With(Seq<char>),
    Get,
}

/// What a `TryFromValue` struct does for one of its fields: the attribute
/// named `key` gives the field `name`, as `init` says.
#[derive(Debug)]
pub struct FieldPlan {
    pub name: String,
    pub key: String,
    pub init: FieldInit,
}

/// The view of what is done for a field.
pub struct SpecFieldPlan {
    pub name: Seq<char>,
    pub key: Seq<char>,
    pub init: SpecFieldInit,
}

impl View for FieldPlan {
    type V = SpecFieldPlan;

    open spec fn view(&self) -> SpecFieldPlan {
        SpecFieldPlan {
            name: self.name@,
            key: self.key@,
            init: match self.init {
                FieldInit::GetOrDefault => SpecFieldInit::GetOrDefault,
                FieldInit::With(w) => SpecFieldInit::With(w@),
                FieldInit::Get => SpecFieldInit::Get,
            },
        }
    }
}

/// The name of the attribute of the field `name`: renamed by the field's
/// rename, or else by the struct's.
pub open spec fn field_key(struct_attrs: SpecAttributes, field: SpecAttributes, name: Seq<char>) -> Seq<char> {
    match field.rename {
        Some(r) => renamed(r, name),
        None => match struct_attrs.rename {
            Some(r) => renamed(r, name),
            None => name,
        },
    }
}

/// How the field's value is taken: with its default if the struct or the
/// field says so, or else with the field's function if it has one.
pub open spec fn field_init(struct_attrs: SpecAttributes, field: SpecAttributes) -> SpecFieldInit {
    if struct_attrs.default || field.default {
        SpecFieldInit::GetOrDefault
    } else {
        match field.with {
            Some(w) => SpecFieldInit::With(w),
            None => SpecFieldInit::Get,
        }
    }
}

/// What is done for the fields `names`, whose attributes are `attrs`, of a
/// struct whose attributes say `s`; the first error stops.
pub open spec fn spec_field_plans(s: SpecAttributes, names: Seq<Seq<char>>, attrs: Seq<Vec<DeriveAttribute>>) -> Result<Seq<SpecFieldPlan>, SpecAttributeError>
    decreases names.len(),
{
    if names.len() == 0 {
        Ok(Seq::empty())
    } else {
        match spec_field_plans(s, names.drop_last(), attrs) {
            Err(e) => Err(e),
            Ok(plans) => match parse_metas(try_from_metas(attrs[names.len() - 1]@), AttributePosition::Field) {
                Err(e) => Err(e),
                Ok(fa) => {
                    let key = field_key(s, fa, names.last());
                    if index_of(key, '\0') is Some {
                        Err(SpecAttributeError::NulInName)
                    } else {
                        Ok(plans.push(SpecFieldPlan { name: names.last(), key, init: field_init(s, fa) }))
                    }
                },
            },
        }
    }
}

/// What deriving `TryFromValue` for the struct `item` whose attributes are
/// `struct_attrs` and whose fields have the attributes `field_attrs` does:
/// its attributes are read, then its fields checked, then each field
/// planned in order.
pub open spec fn spec_try_from_value_plan(
    struct_attrs: Seq<DeriveAttribute>,
    item: ItemShape,
    field_attrs: Seq<Vec<DeriveAttribute>>,
) -> Result<Seq<SpecFieldPlan>, SpecAttributeError> {
    match parse_metas(try_from_metas(struct_attrs), AttributePosition::Struct) {
        Err(e) => Err(e),
        Ok(s) => match spec_try_from_fields_error(item) {
            Some(m) => Err(message(m)),
            None => match item {
                ItemShape::Struct(FieldsShape::Named(names)) => spec_field_plans(s, texts(names@), field_attrs),
                _ => Ok(Seq::empty()),
            },
        },
    }
}

/// Once planning a field fails, planning the fields up to a later one
/// fails the same way.
proof fn lemma_plan_error_stays(s: SpecAttributes, names: Seq<Seq<char>>, attrs: Seq<Vec<DeriveAttribute>>, k: int)
    requires
        0 <= k <= names.len(),
        spec_field_plans(s, names.take(k), attrs) is Err,
    ensures
        spec_field_plans(s, names, attrs) == spec_field_plans(s, names.take(k), attrs),
    decreases names.len() - k,
{
    if k < names.len() {
        assert(names.take(k + 1).drop_last() =~= names.take(k));
        lemma_plan_error_stays(s, names, attrs, k + 1);
    } else {
        assert(names.take(k) =~= names);
    }
}

/// Renames `name` as `r` says.
fn apply_rename(r: &Rename, name: &mut String)
    ensures
        final(name)@ == renamed(r@, old(name)@),
{
    match r {
        Rename::CamelCase => to_camel_case(name),
        Rename::Replace(t) => {
            *name = t.clone();
        },
    }
}

/// The views of field plans.
pub open spec fn plans_view(v: Seq<FieldPlan>) -> Seq<SpecFieldPlan> {
    v.map_values(|p: FieldPlan| p@)
}

/// What deriving `TryFromValue` for the struct `item`, whose attributes
/// are `struct_attrs` and whose fields have the attributes `field_attrs`,
/// does for each field.
pub fn try_from_value_plan(
    struct_attrs: &Vec<DeriveAttribute>,
    item: &ItemShape,
    field_attrs: &Vec<Vec<DeriveAttribute>>,
) -> (r: Result<Vec<FieldPlan>, AttributeError>)
    requires
        item matches ItemShape::Struct(FieldsShape::Named(names)) ==> field_attrs@.len() == names@.len(),
    ensures
        match r {
            Ok(plans) => spec_try_from_value_plan(struct_attrs@, *item, field_attrs@) == Ok::<
                Seq<SpecFieldPlan>,
                SpecAttributeError,
            >(plans_view(plans@)),
            Err(e) => spec_try_from_value_plan(struct_attrs@, *item, field_attrs@) == Err::<
                Seq<SpecFieldPlan>,
                SpecAttributeError,
            >(e@),
        },
{
    let s = parse_attributes(struct_attrs, AttributePosition::Struct)?;
    let names = match try_from_value_fields(item) {
        Ok(names) => names,
        Err(m) => {
            return Err(AttributeError::Message(m));
        },
    };
    let ghost texts_all = texts(names@);
    let mut plans: Vec<FieldPlan> = Vec::new();
    let mut k: usize = 0;
    assert(texts_all.take(0) =~= Seq::<Seq<char>>::empty());
    assert(plans_view(plans@) =~= Seq::<SpecFieldPlan>::empty());
    while k < names.len()
        invariant
            k <= names@.len(),
            plans@.len() == k,
            names@.len() == field_attrs@.len(),
            texts_all == texts(names@),
            parse_metas(try_from_metas(struct_attrs@), AttributePosition::Struct) == Ok::<
                SpecAttributes,
                SpecAttributeError,
            >(s@),
            spec_try_from_fields_error(*item) is None,
            item matches ItemShape::Struct(FieldsShape::Named(n)) && n == *names,
            spec_field_plans(s@, texts_all.take(k as int), field_attrs@) == Ok::<
                Seq<SpecFieldPlan>,
                SpecAttributeError,
            >(plans_view(plans@)),
        decreases names@.len() - k,
    {
        assert(texts_all.take(k + 1).drop_last() =~= texts_all.take(k as int));
        assert(texts_all.take(k + 1).last() == names@[k as int]@);
        let fa = match parse_attributes(&field_attrs[k], AttributePosition::Field) {
            Ok(fa) => fa,
            Err(e) => {
                proof {
                    lemma_plan_error_stays(s@, texts_all, field_attrs@, k + 1);
                    assert(texts_all.take(names@.len() as int) =~= texts_all);
                }
                return Err(e);
            },
        };
        let mut key = names[k].clone();
        match &fa.rename {
            Some(r) => apply_rename(r, &mut key),
            None => match &s.rename {
                Some(r) => apply_rename(r, &mut key),
                None => {},
            },
        }
        let key_chars = chars_of(key.as_str());
        if index_of_exec(&key_chars, '\0').is_some() {
            proof {
                lemma_plan_error_stays(s@, texts_all, field_attrs@, k + 1);
            }
            return Err(AttributeError::NulInName);
        }
        let init = if s.default || fa.default {
            FieldInit::GetOrDefault
        } else {
            match fa.with {
                Some(w) => FieldInit::With(w),
                None => FieldInit::Get,
            }
        };
        let ghost before = plans_view(plans@);
        plans.push(FieldPlan { name: names[k].clone(), key, init });
        assert(plans_view(plans@) =~= before.push(plans@[k as int]@));
        k = k + 1;
    }
    assert(texts_all.take(k as int) =~= texts_all);
    Ok(plans)
}

// ---------------------------------------------------------------------------
// The entries of the `attrset!` macro.

/// The key of an entry of `attrset!`: a name, or a braced expression (by
/// its text).
#[derive(Debug)]
pub enum MacroKey {
    Name(String),
    Expr(String),
}

/// The value of an entry of `attrset!`: a string literal (by the text it
/// stands for), or another expression (by its text).
#[derive(Debug)]
pub enum MacroValue {
    Str(String),
    Expr(String),
}

/// The text holds no NUL character.
pub open spec fn nul_free_text(t: Seq<char>) -> bool {
    index_of(t, '\0') is None
}

/// The error of the first entry of `entries` whose name or string literal
/// holds a NUL character, if any: names and string literals become C
/// string literals.
pub open spec fn spec_attrset_entries_error(entries: Seq<(MacroKey, MacroValue)>) -> Option<Seq<char>>
    decreases entries.len(),
{
    if entries.len() == 0 {
        None
    } else {
        match spec_attrset_entries_error(entries.drop_last()) {
            Some(e) => Some(e),
            None => {
                let (k, v) = entries.last();
                if k matches MacroKey::Name(n) && !nul_free_text(n@) {
                    Some("attrset key cannot contain NUL byte"@)
                } else if v matches MacroValue::Str(t) && !nul_free_text(t@) {
                    Some("string literal cannot contain NUL byte"@)
                } else {
                    None
                }
            },
        }
    }
}

/// Once an entry is refused, the entries up to any later one are.
proof fn lemma_entry_error_stays(entries: Seq<(MacroKey, MacroValue)>, k: int)
    requires
        0 < k <= entries.len(),
        spec_attrset_entries_error(entries.take(k)) is Some,
    ensures
        spec_attrset_entries_error(entries) == spec_attrset_entries_error(entries.take(k)),
    decreases entries.len() - k,
{
    if k < entries.len() {
        assert(entries.take(k + 1).drop_last() =~= entries.take(k));
        lemma_entry_error_stays(entries, k + 1);
    } else {
        assert(entries.take(k) =~= entries);
    }
}

/// Whether the text `t` holds a NUL character.
fn has_nul(t: &String) -> (r: bool)
    ensures
        r == !nul_free_text(t@),
{
    let chars = chars_of(t.as_str());
    index_of_exec(&chars, '\0').is_some()
}

/// Checks the entries of an `attrset!`: the names and string literals,
/// which become C string literals, must hold no NUL character.
pub fn check_attrset_entries(entries: &Vec<(MacroKey, MacroValue)>) -> (r: Result<(), String>)
    ensures
        match spec_attrset_entries_error(entries@) {
            Some(m) => r matches Err(e) && e@ == m,
            None => r is Ok,
        },
{
    let mut i: usize = 0;
    assert(entries@.take(0) =~= Seq::<(MacroKey, MacroValue)>::empty());
    while i < entries.len()
        invariant
            i <= entries@.len(),
            spec_attrset_entries_error(entries@.take(i as int)) is None,
        decreases entries@.len() - i,
    {
        assert(entries@.take(i + 1).drop_last() =~= entries@.take(i as int));
        assert(entries@.take(i + 1).last() == entries@[i as int]);
        let (k, v) = &entries[i];
        let key_nul = match k {
            MacroKey::Name(n) => has_nul(n),
            MacroKey::Expr(_) => false,
        };
        if key_nul {
            proof {
                reveal_strlit("attrset key cannot contain NUL byte");
                lemma_entry_error_stays(entries@, i + 1);
            }
            return Err(string_of("attrset key cannot contain NUL byte"));
        }
        let value_nul = match v {
            MacroValue::Str(t) => has_nul(t),
            MacroValue::Expr(_) => false,
        };
        if value_nul {
            proof {
                reveal_strlit("string literal cannot contain NUL byte");
                lemma_entry_error_stays(entries@, i + 1);
            }
            return Err(string_of("string literal cannot contain NUL byte"));
        }
        i = i + 1;
    }
    assert(entries@.take(i as int) =~= entries@);
    Ok(())
}

} // verus!
