//! The structural description of types and function signatures.

use vstd::prelude::*;

verus! {

/// A qualifier applied to a base type. Only `Pointer` matters to
/// classification; the others are carried through.
#[derive(Clone, Copy, Debug, PartialEq, Eq)]
pub enum Modifier {
    Pointer,
    Reference,
    Const,
    Volatile,
    Restrict,
}

/// A type: a named base entity with the modifiers applied to it.
#[derive(Debug)]
pub struct Typed {
    pub name: String,
    pub value: TypedValue,
    pub modifiers: Vec<Modifier>,
}

/// What kind of entity a type's name refers to.
#[derive(Debug)]
pub enum TypedValue {
    Base,
    Enum,
    Typedef(Box<Typed>),
    Function(Box<Function>),
    Struct(Vec<Parameter>),
    Union(Vec<Parameter>),
    Array(Box<Typed>, u16),
    /// A type whose resolution led back to itself.
    Circular,
}

/// A function parameter, or a member of a struct or union.
#[derive(Debug)]
pub struct Parameter {
    pub name: Option<String>,
    pub typed: Typed,
}

/// A function signature: its return type and its parameters in order.
#[derive(Debug)]
pub struct Function {
    pub name: Option<String>,
    pub typed: Typed,
    pub parameters: Vec<Parameter>,
}

/// The switches that govern a run.
#[derive(Clone, Copy, Debug)]
pub struct Flags {
    /// Keep exported names that begin with an underscore.
    pub print_reserved: bool,
    /// Report counts in place of one line per symbol.
    pub print_summary: bool,
    /// Print several files' symbols with no separators.
    pub omit_headers: bool,
    /// Accept a single-level pointer to `char`.
    pub allow_char_str: bool,
    /// Accept a single-level pointer to `void`.
    pub allow_void_str: bool,
    /// Accept a single-level pointer to any base type.
    pub allow_basic_str: bool,
}

} // verus!
