//! A schema compiler for a small interface-definition language.
//!
//! Type declarations (aliases, structs, enums, newtypes) are absorbed by a
//! caller-supplied document layer into unresolved definitions; this crate
//! parses the embedded type-reference expressions, resolves all definitions
//! (including forward references) into a fully-typed intermediate
//! representation, and projects the result into Rust declarations.

use vstd::prelude::*;

pub mod generate;
pub mod ir;
pub mod laws;
pub mod parse;
pub mod resolve;

use crate::ir::NamedType;

verus! {

/// The error conditions surfaced by parsing, resolution and generation.
#[derive(Debug)]
pub enum Error {
    /// A type-reference expression does not match the grammar, or leaves
    /// trailing input; carries the unconsumed remainder.
    Invalid(String),
    /// A declared name collides with a reserved keyword or an already
    /// resolved name; carries the offending name.
    BadName(String),
    /// The document held no type declarations at all.
    NoTypes,
    /// A full resolution pass made no progress while definitions were still
    /// pending: the pending set holds a cycle or an undeclared name.
    Unresolvable,
    /// The backend was asked to write an inline reference to a type whose
    /// payload is recoverable only from its mangled name; carries that name.
    Unrepresentable(String),
}

/// The mathematical value of an [`Error`]: the same variants over sequences
/// of characters.
pub enum ErrorV {
    Invalid(Seq<char>),
    BadName(Seq<char>),
    NoTypes,
    Unresolvable,
    Unrepresentable(Seq<char>),
}

impl View for Error {
    type V = ErrorV;

    open spec fn view(&self) -> ErrorV {
        match self {
            Error::Invalid(s) => ErrorV::Invalid(s@),
            Error::BadName(s) => ErrorV::BadName(s@),
            Error::NoTypes => ErrorV::NoTypes,
            Error::Unresolvable => ErrorV::Unresolvable,
            Error::Unrepresentable(s) => ErrorV::Unrepresentable(s@),
        }
    }
}

/// A resolved schema document: its types in resolution order.
pub struct Pidl {
    pub types: Vec<NamedType>,
}

} // verus!
