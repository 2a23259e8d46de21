//! Errors reported to Nix, and the errors of converting values.

use vstd::prelude::*;

use crate::text::{decimal, i64_to_string, push_str};
use crate::value::ValueKind;

verus! {

/// The error codes of the Nix C API (`nix_err`).
pub const NIX_ERR_UNKNOWN: i32 = -1;
pub const NIX_ERR_OVERFLOW: i32 = -2;
pub const NIX_ERR_KEY: i32 = -3;
pub const NIX_ERR_NIX_ERROR: i32 = -4;

/// The kinds of errors Nix distinguishes.
#[derive(Clone, Copy, Debug, PartialEq, Eq, Structural)]
pub enum ErrorKind {
    /// An unknown error occurred.
    Unknown,
    /// An overflow error occurred.
    Overflow,
    /// A key or index was missing or out of bounds.
    Key,
    /// A generic Nix error occurred.
    Nix,
}

/// An error to report to Nix: a kind and a message.
#[derive(Clone, Debug, PartialEq, Eq)]
pub struct Error {
    pub kind: ErrorKind,
    pub message: String,
}

/// The view of an [`Error`].
pub struct SpecError {
    pub kind: ErrorKind,
    pub message: Seq<char>,
}

impl View for Error {
    type V = SpecError;

    open spec fn view(&self) -> SpecError {
        SpecError { kind: self.kind, message: self.message@ }
    }
}

/// The error of converting a value of one kind into another.
#[derive(Clone, Copy, Debug, PartialEq, Eq, Structural)]
pub struct TypeMismatchError {
    /// The expected value kind.
    pub expected: ValueKind,
    /// The found value kind.
    pub found: ValueKind,
}

/// The integer types a Nix integer can be converted into.
#[derive(Clone, Copy, Debug, PartialEq, Eq, Structural)]
pub enum IntType {
    I8,
    I16,
    I32,
    I64,
    I128,
    Isize,
    U8,
    U16,
    U32,
    U64,
    U128,
    Usize,
}

/// The error of converting a Nix integer into an integer type that cannot
/// hold it.
#[derive(Clone, Copy, Debug, PartialEq, Eq, Structural)]
pub struct TryFromI64Error {
    pub n: i64,
    pub target: IntType,
}

impl ErrorKind {
    /// The `nix_err` code of this kind.
    pub open spec fn spec_code(self) -> i32 {
        match self {
            ErrorKind::Unknown => NIX_ERR_UNKNOWN,
            ErrorKind::Overflow => NIX_ERR_OVERFLOW,
            ErrorKind::Key => NIX_ERR_KEY,
            ErrorKind::Nix => NIX_ERR_NIX_ERROR,
        }
    }

    /// The `nix_err` code of this kind.
    pub fn code(self) -> (r: i32)
        ensures
            r == self.spec_code(),
    {
        match self {
            ErrorKind::Unknown => NIX_ERR_UNKNOWN,
            ErrorKind::Overflow => NIX_ERR_OVERFLOW,
            ErrorKind::Key => NIX_ERR_KEY,
            ErrorKind::Nix => NIX_ERR_NIX_ERROR,
        }
    }

    /// What the kind is displayed as.
    pub open spec fn spec_description(self) -> Seq<char> {
        match self {
            ErrorKind::Unknown => "an unknown error occurred"@,
            ErrorKind::Overflow => "an overflow error occurred"@,
            ErrorKind::Key => "a key/index access error occurred"@,
            ErrorKind::Nix => "a generic Nix error occurred"@,
        }
    }

    /// What the kind is displayed as.
    pub fn description(self) -> (r: &'static str)
        ensures
            r@ == self.spec_description(),
    {
        match self {
            ErrorKind::Unknown => "an unknown error occurred",
            ErrorKind::Overflow => "an overflow error occurred",
            ErrorKind::Key => "a key/index access error occurred",
            ErrorKind::Nix => "a generic Nix error occurred",
        }
    }
}

impl Error {
    /// Creates an error of the given kind with the given message.
    pub fn new(kind: ErrorKind, message: String) -> (r: Error)
        ensures
            r.kind == kind,
            r.message@ == message@,
    {
        Error { kind, message }
    }

    /// An error of the given kind with the given message.
    pub fn from_str(kind: ErrorKind, message: &str) -> (r: Error)
        ensures
            r.kind == kind,
            r.message@ == message@,
    {
        let mut m = String::new();
        push_str(&mut m, message);
        Error { kind, message: m }
    }

    /// The error with its message preceded by `prefix`.
    pub fn map_message_prefix(self, prefix: &str) -> (r: Error)
        ensures
            r.kind == self.kind,
            r.message@ == prefix@ + self.message@,
    {
        let mut m = String::new();
        push_str(&mut m, prefix);
        push_str(&mut m, self.message.as_str());
        Error { kind: self.kind, message: m }
    }
}

/// The message of a type mismatch.
pub open spec fn spec_type_mismatch_message(e: TypeMismatchError) -> Seq<char> {
    "type mismatch: expected "@ + e.expected.spec_name() + ", found "@ + e.found.spec_name()
}

impl TypeMismatchError {
    /// The error reported to Nix for this mismatch.
    pub fn to_error(self) -> (r: Error)
        ensures
            r@ == (SpecError { kind: ErrorKind::Nix, message: spec_type_mismatch_message(self) }),
    {
        let mut m = String::new();
        push_str(&mut m, "type mismatch: expected ");
        push_str(&mut m, self.expected.name());
        push_str(&mut m, ", found ");
        push_str(&mut m, self.found.name());
        Error { kind: ErrorKind::Nix, message: m }
    }
}

impl IntType {
    /// The smallest value of this type, clamped to the range of `i64`.
    pub open spec fn spec_min(self) -> int {
        match self {
            IntType::I8 => i8::MIN as int,
            IntType::I16 => i16::MIN as int,
            IntType::I32 => i32::MIN as int,
            IntType::I64 | IntType::I128 | IntType::Isize => i64::MIN as int,
            _ => 0,
        }
    }

    /// The largest value of this type, clamped to the range of `i64`.
    pub open spec fn spec_max(self) -> int {
        match self {
            IntType::I8 => i8::MAX as int,
            IntType::I16 => i16::MAX as int,
            IntType::I32 => i32::MAX as int,
            IntType::U8 => u8::MAX as int,
            IntType::U16 => u16::MAX as int,
            IntType::U32 => u32::MAX as int,
            _ => i64::MAX as int,
        }
    }

    /// Whether the integer `n` fits in this type.
    pub fn fits(self, n: i64) -> (r: bool)
        ensures
            r == (self.spec_min() <= n <= self.spec_max()),
    {
        match self {
            IntType::I8 => -128 <= n && n <= 127,
            IntType::I16 => -32768 <= n && n <= 32767,
            IntType::I32 => -2147483648 <= n && n <= 2147483647,
            IntType::I64 | IntType::I128 | IntType::Isize => true,
            IntType::U8 => 0 <= n && n <= 255,
            IntType::U16 => 0 <= n && n <= 65535,
            IntType::U32 => 0 <= n && n <= 4294967295,
            IntType::U64 | IntType::U128 | IntType::Usize => 0 <= n,
        }
    }

    /// The name of this type.
    pub open spec fn spec_name(self) -> Seq<char> {
        match self {
            IntType::I8 => "i8"@,
            IntType::I16 => "i16"@,
            IntType::I32 => "i32"@,
            IntType::I64 => "i64"@,
            IntType::I128 => "i128"@,
            IntType::Isize => "isize"@,
            IntType::U8 => "u8"@,
            IntType::U16 => "u16"@,
            IntType::U32 => "u32"@,
            IntType::U64 => "u64"@,
            IntType::U128 => "u128"@,
            IntType::Usize => "usize"@,
        }
    }

    /// The name of this type.
    pub fn name(self) -> (r: &'static str)
        ensures
            r@ == self.spec_name(),
    {
        match self {
            IntType::I8 => "i8",
            IntType::I16 => "i16",
            IntType::I32 => "i32",
            IntType::I64 => "i64",
            IntType::I128 => "i128",
            IntType::Isize => "isize",
            IntType::U8 => "u8",
            IntType::U16 => "u16",
            IntType::U32 => "u32",
            IntType::U64 => "u64",
            IntType::U128 => "u128",
            IntType::Usize => "usize",
        }
    }
}

impl TryFromI64Error {
    /// The error of converting `n` into `int`.
    pub fn new(n: i64, target: IntType) -> (r: TryFromI64Error)
        ensures
            r.n == n,
            r.target == target,
    {
        TryFromI64Error { n, target }
    }
}


impl ErrorKind {
    /// The kind a `nix_err` code stands for; `None` for `NIX_OK`.
    pub fn from_code(code: i32) -> (r: Option<ErrorKind>)
        requires
            -4 <= code <= 0,
        ensures
            match r {
                None => code == 0,
                Some(kind) => kind.spec_code() == code,
            },
    {
        if code == 0 {
            None
        } else if code == NIX_ERR_UNKNOWN {
            Some(ErrorKind::Unknown)
        } else if code == NIX_ERR_OVERFLOW {
            Some(ErrorKind::Overflow)
        } else if code == NIX_ERR_KEY {
            Some(ErrorKind::Key)
        } else {
            Some(ErrorKind::Nix)
        }
    }
}

/// Each kind has its own code, so the kind read back from the code of a
/// kind is that kind.
pub proof fn lemma_code_injective(a: ErrorKind, b: ErrorKind)
    ensures
        a.spec_code() == b.spec_code() ==> a == b,
        -4 <= a.spec_code() < 0,
{
}

/// The message of a failed integer conversion.
pub open spec fn spec_try_from_i64_message(e: TryFromI64Error) -> Seq<char> {
    "integer conversion failed: cannot convert "@ + decimal(e.n as int) + "i64 into target type "@
        + e.target.spec_name()
}

impl TryFromI64Error {
    /// The error reported to Nix for this failed conversion.
    pub fn to_error(self) -> (r: Error)
        ensures
            r@ == (SpecError { kind: ErrorKind::Nix, message: spec_try_from_i64_message(self) }),
    {
        let mut m = String::new();
        push_str(&mut m, "integer conversion failed: cannot convert ");
        let n = i64_to_string(self.n);
        push_str(&mut m, n.as_str());
        push_str(&mut m, "i64 into target type ");
        push_str(&mut m, self.target.name());
        Error { kind: ErrorKind::Nix, message: m }
    }
}

/// What can be reported to Nix as an error: a kind and a message.
pub trait ToError {
    /// The error reported.
    spec fn spec_error(&self) -> SpecError;

    /// The kind of the error.
    fn kind(&self) -> (r: ErrorKind)
        ensures
            r == self.spec_error().kind,
    ;

    /// The message of the error.
    fn format_message(&self) -> (r: String)
        ensures
            r@ == self.spec_error().message,
    ;
}

impl ToError for TypeMismatchError {
    open spec fn spec_error(&self) -> SpecError {
        SpecError { kind: ErrorKind::Nix, message: spec_type_mismatch_message(*self) }
    }

    fn kind(&self) -> (r: ErrorKind) {
        ErrorKind::Nix
    }

    fn format_message(&self) -> (r: String) {
        self.to_error().message
    }
}

impl ToError for TryFromI64Error {
    open spec fn spec_error(&self) -> SpecError {
        SpecError { kind: ErrorKind::Nix, message: spec_try_from_i64_message(*self) }
    }

    fn kind(&self) -> (r: ErrorKind) {
        ErrorKind::Nix
    }

    fn format_message(&self) -> (r: String) {
        self.to_error().message
    }
}

impl ToError for (ErrorKind, String) {
    /// A kind and a message given as they are.
    open spec fn spec_error(&self) -> SpecError {
        SpecError { kind: self.0, message: self.1@ }
    }

    fn kind(&self) -> (r: ErrorKind) {
        self.0
    }

    fn format_message(&self) -> (r: String) {
        self.1.clone()
    }
}

/// The error state the C API leaves in a context after a call: a
/// `nix_err` code and, for an error, its message.
pub struct ContextInner {
    code: i32,
    message: String,
}

impl ContextInner {
    /// The code of the last call.
    pub closed spec fn spec_code(&self) -> i32 {
        self.code
    }

    /// The message of the last error.
    pub closed spec fn spec_message(&self) -> Seq<char> {
        self.message@
    }

    /// A context in which no error happened.
    pub fn new() -> (r: ContextInner)
        ensures
            r.spec_code() == 0,
    {
        ContextInner { code: 0, message: String::new() }
    }

    /// Records the outcome of a call: its code and message.
    pub fn set_err(&mut self, code: i32, message: String)
        ensures
            final(self).spec_code() == code,
            final(self).spec_message() == message@,
    {
        self.code = code;
        self.message = message;
    }

    /// Reports `err` in the context, as the error of the last call, and
    /// gives it back.
    pub fn make_error<E: ToError>(&mut self, err: &E) -> (r: Error)
        ensures
            r@ == err.spec_error(),
            final(self).spec_code() == err.spec_error().kind.spec_code(),
            final(self).spec_message() == err.spec_error().message,
    {
        let kind = err.kind();
        let message = err.format_message();
        let copy = message.clone();
        self.set_err(kind.code(), message);
        Error { kind, message: copy }
    }

    /// The error the last call left, if any: its kind is the one of the
    /// code, its message the recorded one. Codes other than those of
    /// `nix_err` are never recorded.
    pub fn check_err(&self) -> (r: Result<(), Error>)
        requires
            -4 <= self.spec_code() <= 0,
        ensures
            self.spec_code() == 0 ==> r is Ok,
            self.spec_code() != 0 ==> (r matches Err(e) && e.kind.spec_code() == self.spec_code()
                && e.message@ == self.spec_message()),
    {
        match ErrorKind::from_code(self.code) {
            None => Ok(()),
            Some(kind) => Err(Error { kind, message: self.message.clone() }),
        }
    }
}

/// What a context reports with `make_error` is what `check_err` gives back:
/// the code recorded is an error code, which no other kind has, and the
/// message is the one recorded.
pub proof fn lemma_error_round_trip(ctx: &ContextInner, kind: ErrorKind)
    requires
        ctx.spec_code() == kind.spec_code(),
    ensures
        -4 <= ctx.spec_code() < 0,
        forall|k: ErrorKind| #[trigger] k.spec_code() == ctx.spec_code() ==> k == kind,
{
    lemma_code_injective(kind, kind);
    assert forall|k: ErrorKind| #[trigger] k.spec_code() == ctx.spec_code() implies k == kind by {
        lemma_code_injective(k, kind);
    }
}

} // verus!
