//! The arguments a primop is called with.

use vstd::prelude::*;

use crate::error::{Error, ErrorKind};
use crate::value::{Context, NixValue, TryFromValue};

verus! {

/// The arguments of a call of a primop; an argument Nix did not give is
/// missing.
pub struct ArgsList {
    args: Vec<Option<NixValue>>,
}

/// The message of the error of a missing argument.
pub open spec fn null_argument_message() -> Seq<char> {
    "argument is NULL"@
}

impl ArgsList {
    /// The arguments.
    pub closed spec fn spec_args(&self) -> Seq<Option<NixValue>> {
        self.args@
    }

    /// The arguments `args`.
    pub fn new(args: Vec<Option<NixValue>>) -> (r: ArgsList)
        ensures
            r.spec_args() == args@,
    {
        ArgsList { args }
    }

    /// The argument at `offset` converted into a `T`; an error if it is
    /// missing.
    pub fn get<T: TryFromValue>(&self, offset: u8, ctx: &Context) -> (r: Result<T, Error>)
        requires
            ctx.wf(),
            offset < self.spec_args().len(),
            self.spec_args()[offset as int] matches Some(v) ==> ctx.holds(v),
        ensures
            match self.spec_args()[offset as int] {
                None => r matches Err(e) && e.kind == ErrorKind::Overflow && e.message@ == null_argument_message(),
                Some(v) => T::converts(ctx, v, r),
            },
    {
        match self.args[offset as usize] {
            None => Err(Error::from_str(ErrorKind::Overflow, "argument is NULL")),
            Some(v) => T::try_from_value(v, ctx),
        }
    }
}

/// The arguments of a primop that takes none.
#[derive(Clone, Copy, Debug)]
pub struct NoArgs;

impl NoArgs {
    /// The number of arguments.
    pub fn arity() -> (r: u8)
        ensures
            r == 0,
    {
        0
    }

    /// Reads no argument.
    pub fn from_raw(args: &ArgsList, ctx: &Context) -> (r: Result<NoArgs, Error>)
        ensures
            r is Ok,
    {
        Ok(NoArgs)
    }
}

/// Types a primop argument can be read as.
pub trait Arg: Sized {
    /// `r` is the result of reading the argument `v` as this type.
    spec fn reads_as(ctx: &Context, v: NixValue, r: Result<Self, Error>) -> bool;

    /// Reads the argument `value`.
    fn try_from_arg(value: NixValue, ctx: &Context) -> (r: Result<Self, Error>)
        requires
            ctx.wf(),
            ctx.holds(value),
        ensures
            Self::reads_as(ctx, value, r),
    ;
}

impl Arg for NixValue {
    /// A value is read as itself.
    open spec fn reads_as(ctx: &Context, v: NixValue, r: Result<NixValue, Error>) -> bool {
        <NixValue as TryFromValue>::converts(ctx, v, r)
    }

    fn try_from_arg(value: NixValue, ctx: &Context) -> (r: Result<NixValue, Error>) {
        <NixValue as TryFromValue>::try_from_value(value, ctx)
    }
}

impl Arg for bool {
    /// A value is read as a boolean as it converts into one.
    open spec fn reads_as(ctx: &Context, v: NixValue, r: Result<bool, Error>) -> bool {
        <bool as TryFromValue>::converts(ctx, v, r)
    }

    fn try_from_arg(value: NixValue, ctx: &Context) -> (r: Result<bool, Error>) {
        <bool as TryFromValue>::try_from_value(value, ctx)
    }
}

impl Arg for i64 {
    /// A value is read as an integer as it converts into one.
    open spec fn reads_as(ctx: &Context, v: NixValue, r: Result<i64, Error>) -> bool {
        <i64 as TryFromValue>::converts(ctx, v, r)
    }

    fn try_from_arg(value: NixValue, ctx: &Context) -> (r: Result<i64, Error>) {
        <i64 as TryFromValue>::try_from_value(value, ctx)
    }
}

impl Arg for String {
    /// A value is read as a string as it converts into one.
    open spec fn reads_as(ctx: &Context, v: NixValue, r: Result<String, Error>) -> bool {
        <String as TryFromValue>::converts(ctx, v, r)
    }

    fn try_from_arg(value: NixValue, ctx: &Context) -> (r: Result<String, Error>) {
        <String as TryFromValue>::try_from_value(value, ctx)
    }
}

} // verus!
