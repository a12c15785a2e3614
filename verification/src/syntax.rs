//! The parts of Rust syntax that WIT generation reads: types, and the items
//! of an annotated module. A parser fills these in; the generators only read
//! them.

use vstd::prelude::*;

verus! {

/// A Rust type, as far as WIT generation looks into it.
pub enum TypeAst {
    /// A path such as `std::result::Result<T, E>`; `qself` marks a qualified
    /// path such as `<T as Trait>::Item`.
    Path { qself: bool, segments: Vec<PathSegmentAst> },
    /// `(A, B, ...)`, the unit type being the empty tuple.
    Tuple(Vec<TypeAst>),
    /// `[T]`.
    Slice(Box<TypeAst>),
    /// `&T` or `&mut T`.
    Reference(Box<TypeAst>),
    /// Any other kind of type (arrays, pointers, function pointers, `impl Trait`, ...).
    Other,
}

/// One segment of a path: its identifier and what follows it.
pub struct PathSegmentAst {
    pub ident: String,
    pub arguments: PathArgumentsAst,
}

pub enum PathArgumentsAst {
    /// No arguments.
    Plain,
    /// `<A, B, ...>`.
    AngleBracketed(Vec<GenericArgumentAst>),
    /// `(A, B) -> C`, as in `Fn(A, B) -> C`.
    Parenthesized,
}

pub enum GenericArgumentAst {
    Type(TypeAst),
    /// A lifetime, a constant, an associated type binding or a constraint.
    Other,
}

/// A module whose items are turned into a WIT interface; `items` is `None`
/// for a module declared without a body (`mod name;`).
pub struct ModuleAst {
    pub ident: String,
    pub items: Option<Vec<ItemAst>>,
}

pub enum ItemAst {
    Struct(StructAst),
    Trait(TraitAst),
    Enum(EnumAst),
    /// `type Name = T;`.
    Type(TypeAliasAst),
    /// Any other item (functions, constants, uses, ...).
    Other,
}

pub struct TypeAliasAst {
    pub ident: String,
    pub ty: TypeAst,
}

pub struct StructAst {
    pub ident: String,
    pub fields: Vec<FieldAst>,
}

/// A field: named fields have an identifier, tuple fields have none.
pub struct FieldAst {
    pub ident: Option<String>,
    pub ty: TypeAst,
}

pub struct TraitAst {
    pub ident: String,
    pub items: Vec<TraitItemAst>,
}

pub enum TraitItemAst {
    Fn(SignatureAst),
    /// Associated constants, types and macros.
    Other,
}

/// A function signature: its name, its parameters and its return type
/// (`None` when it has none written).
pub struct SignatureAst {
    pub ident: String,
    pub inputs: Vec<FnArgAst>,
    pub output: Option<TypeAst>,
}

pub enum FnArgAst {
    /// `self`, `&self`, `&mut self`.
    Receiver,
    Typed(PatAst, TypeAst),
}

pub enum PatAst {
    Ident(String),
    /// Any other pattern (tuples, wildcards, ...).
    Other,
}

pub struct EnumAst {
    pub ident: String,
    pub variants: Vec<VariantAst>,
}

pub struct VariantAst {
    pub ident: String,
    pub fields: FieldsAst,
}

pub enum FieldsAst {
    Named(Vec<FieldAst>),
    Unnamed(Vec<FieldAst>),
    Unit,
}

} // verus!
