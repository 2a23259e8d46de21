use vstd::prelude::*;

pub mod attrset;
pub mod build_lib;
pub mod build_crate;
pub mod builder;
pub mod callable;
pub mod crate_args;
pub mod derivation;
pub mod derive;
pub mod derived_attrset;
pub mod cargo_lock;
pub mod error;
pub mod graph;
pub mod lex;
pub mod list;
pub mod lock_blocks;
pub mod merge;
pub mod namespace;
pub mod package;
pub mod naming;
pub mod phases;
pub mod primop;
pub mod renames;
pub mod rustc;
pub mod value;
pub mod vendor;
pub mod targets;
pub mod text;
pub mod utf8_cstr;

verus! {

} // verus!
