//! Type metadata as the `golem` attribute records it: every type that takes
//! part in an exported interface knows its name and its WIT shape.

use vstd::prelude::*;

verus! {

broadcast use vstd::string::group_string_axioms;

/// Types that know their identifier and their WIT shape.
pub trait HasWitMetadata {
    /// The identifier the type is known by.
    spec fn spec_ident() -> Seq<char>;

    /// Whether `m` is the WIT shape of the type.
    spec fn describes(m: WitMeta) -> bool;

    fn ident() -> (r: &'static str)
        ensures
            r@ == Self::spec_ident(),
    ;

    fn wit() -> (r: WitMeta)
        ensures
            Self::describes(r),
    ;
}

pub enum WitMeta {
    Record(RecordMeta),
    Variant(VariantMeta),
    Enum(EnumMeta),
    FlagMeta(FlagMeta),
    Result(ResultMeta),
    Option(Box<WitMeta>),
    List(Box<WitMeta>),
    Tuple(TupleMeta),
    Primitive(PrimitiveMeta),
    Function(FunctionMeta),
}

pub enum PrimitiveMeta {
    S8,
    S16,
    S32,
    S64,
    U8,
    U16,
    U32,
    U64,
    F32,
    F64,
    Bool,
    Char,
    String,
}

pub struct Ident(pub String);

pub struct FunctionMeta {
    pub name: Ident,
    pub args: Vec<(String, WitMeta)>,
    pub result: Box<WitMeta>,
}

pub struct RecordMeta {
    pub name: Ident,
    pub fields: Vec<(String, WitMeta)>,
}

pub struct EnumMeta {
    pub name: Ident,
    pub variants: Vec<Ident>,
}

pub struct FlagMeta {
    pub name: Ident,
    pub variants: Vec<Ident>,
}

pub struct ResultMeta {
    pub ok: Box<WitMeta>,
    pub err: Box<WitMeta>,
}

pub struct VariantMeta {
    pub name: Ident,
    pub fields: Vec<VariantOption>,
}

pub struct VariantOption {
    pub name: Ident,
    pub fields: Vec<WitMeta>,
}

pub struct TupleMeta {
    pub items: Vec<WitMeta>,
}

// Identifiers and shapes of the primitive and generic std types. (`f32` and
// `f64` are `PrimitiveMeta::F32` and `PrimitiveMeta::F64`; this crate holds no
// floating-point type, so it gives them no impl.)

impl HasWitMetadata for i8 {
    open spec fn spec_ident() -> Seq<char> {
        "s8"@
    }

    open spec fn describes(m: WitMeta) -> bool {
        m == WitMeta::Primitive(PrimitiveMeta::S8)
    }

    fn ident() -> (r: &'static str) {
        "s8"
    }

    fn wit() -> (r: WitMeta) {
        WitMeta::Primitive(PrimitiveMeta::S8)
    }
}

impl HasWitMetadata for i16 {
    open spec fn spec_ident() -> Seq<char> {
        "s16"@
    }

    open spec fn describes(m: WitMeta) -> bool {
        m == WitMeta::Primitive(PrimitiveMeta::S16)
    }

    fn ident() -> (r: &'static str) {
        "s16"
    }

    fn wit() -> (r: WitMeta) {
        WitMeta::Primitive(PrimitiveMeta::S16)
    }
}

impl HasWitMetadata for i32 {
    open spec fn spec_ident() -> Seq<char> {
        "s32"@
    }

    open spec fn describes(m: WitMeta) -> bool {
        m == WitMeta::Primitive(PrimitiveMeta::S32)
    }

    fn ident() -> (r: &'static str) {
        "s32"
    }

    fn wit() -> (r: WitMeta) {
        WitMeta::Primitive(PrimitiveMeta::S32)
    }
}

impl HasWitMetadata for i64 {
    open spec fn spec_ident() -> Seq<char> {
        "s64"@
    }

    open spec fn describes(m: WitMeta) -> bool {
        m == WitMeta::Primitive(PrimitiveMeta::S64)
    }

    fn ident() -> (r: &'static str) {
        "s64"
    }

    fn wit() -> (r: WitMeta) {
        WitMeta::Primitive(PrimitiveMeta::S64)
    }
}

impl HasWitMetadata for isize {
    open spec fn spec_ident() -> Seq<char> {
        "s64"@
    }

    open spec fn describes(m: WitMeta) -> bool {
        m == WitMeta::Primitive(PrimitiveMeta::S64)
    }

    fn ident() -> (r: &'static str) {
        "s64"
    }

    fn wit() -> (r: WitMeta) {
        WitMeta::Primitive(PrimitiveMeta::S64)
    }
}

impl HasWitMetadata for u8 {
    open spec fn spec_ident() -> Seq<char> {
        "u8"@
    }

    open spec fn describes(m: WitMeta) -> bool {
        m == WitMeta::Primitive(PrimitiveMeta::U8)
    }

    fn ident() -> (r: &'static str) {
        "u8"
    }

    fn wit() -> (r: WitMeta) {
        WitMeta::Primitive(PrimitiveMeta::U8)
    }
}

impl HasWitMetadata for u16 {
    open spec fn spec_ident() -> Seq<char> {
        "u16"@
    }

    open spec fn describes(m: WitMeta) -> bool {
        m == WitMeta::Primitive(PrimitiveMeta::U16)
    }

    fn ident() -> (r: &'static str) {
        "u16"
    }

    fn wit() -> (r: WitMeta) {
        WitMeta::Primitive(PrimitiveMeta::U16)
    }
}

impl HasWitMetadata for u32 {
    open spec fn spec_ident() -> Seq<char> {
        "u32"@
    }

    open spec fn describes(m: WitMeta) -> bool {
        m == WitMeta::Primitive(PrimitiveMeta::U32)
    }

    fn ident() -> (r: &'static str) {
        "u32"
    }

    fn wit() -> (r: WitMeta) {
        WitMeta::Primitive(PrimitiveMeta::U32)
    }
}

impl HasWitMetadata for u64 {
    open spec fn spec_ident() -> Seq<char> {
        "u64"@
    }

    open spec fn describes(m: WitMeta) -> bool {
        m == WitMeta::Primitive(PrimitiveMeta::U64)
    }

    fn ident() -> (r: &'static str) {
        "u64"
    }

    fn wit() -> (r: WitMeta) {
        WitMeta::Primitive(PrimitiveMeta::U64)
    }
}

impl HasWitMetadata for usize {
    open spec fn spec_ident() -> Seq<char> {
        "u64"@
    }

    open spec fn describes(m: WitMeta) -> bool {
        m == WitMeta::Primitive(PrimitiveMeta::U64)
    }

    fn ident() -> (r: &'static str) {
        "u64"
    }

    fn wit() -> (r: WitMeta) {
        WitMeta::Primitive(PrimitiveMeta::U64)
    }
}

impl HasWitMetadata for bool {
    open spec fn spec_ident() -> Seq<char> {
        "bool"@
    }

    open spec fn describes(m: WitMeta) -> bool {
        m == WitMeta::Primitive(PrimitiveMeta::Bool)
    }

    fn ident() -> (r: &'static str) {
        "bool"
    }

    fn wit() -> (r: WitMeta) {
        WitMeta::Primitive(PrimitiveMeta::Bool)
    }
}

impl HasWitMetadata for char {
    open spec fn spec_ident() -> Seq<char> {
        "char"@
    }

    open spec fn describes(m: WitMeta) -> bool {
        m == WitMeta::Primitive(PrimitiveMeta::Char)
    }

    fn ident() -> (r: &'static str) {
        "char"
    }

    fn wit() -> (r: WitMeta) {
        WitMeta::Primitive(PrimitiveMeta::Char)
    }
}

impl HasWitMetadata for String {
    open spec fn spec_ident() -> Seq<char> {
        "String"@
    }

    open spec fn describes(m: WitMeta) -> bool {
        m == WitMeta::Primitive(PrimitiveMeta::String)
    }

    fn ident() -> (r: &'static str) {
        "String"
    }

    fn wit() -> (r: WitMeta) {
        WitMeta::Primitive(PrimitiveMeta::String)
    }
}

impl<T: HasWitMetadata, E: HasWitMetadata> HasWitMetadata for Result<T, E> {
    open spec fn spec_ident() -> Seq<char> {
        "Result"@
    }

    open spec fn describes(m: WitMeta) -> bool {
        m matches WitMeta::Result(r) && T::describes(*r.ok) && E::describes(*r.err)
    }

    fn ident() -> (r: &'static str) {
        "Result"
    }

    fn wit() -> (r: WitMeta) {
        WitMeta::Result(ResultMeta { ok: Box::new(T::wit()), err: Box::new(E::wit()) })
    }
}

impl<T: HasWitMetadata> HasWitMetadata for Option<T> {
    open spec fn spec_ident() -> Seq<char> {
        "Option"@
    }

    open spec fn describes(m: WitMeta) -> bool {
        m matches WitMeta::Option(inner) && T::describes(*inner)
    }

    fn ident() -> (r: &'static str) {
        "Option"
    }

    fn wit() -> (r: WitMeta) {
        WitMeta::Option(Box::new(T::wit()))
    }
}

impl<T: HasWitMetadata> HasWitMetadata for Vec<T> {
    open spec fn spec_ident() -> Seq<char> {
        "List"@
    }

    open spec fn describes(m: WitMeta) -> bool {
        m matches WitMeta::List(inner) && T::describes(*inner)
    }

    fn ident() -> (r: &'static str) {
        "List"
    }

    fn wit() -> (r: WitMeta) {
        WitMeta::List(Box::new(T::wit()))
    }
}

impl<A: HasWitMetadata> HasWitMetadata for (A,) {
    open spec fn spec_ident() -> Seq<char> {
        "Tuple"@
    }

    open spec fn describes(m: WitMeta) -> bool {
        m matches WitMeta::Tuple(t) && t.items@.len() == 1 && A::describes(t.items@[0])
    }

    fn ident() -> (r: &'static str) {
        "Tuple"
    }

    fn wit() -> (r: WitMeta) {
        let mut items = Vec::new();
        items.push(A::wit());
        WitMeta::Tuple(TupleMeta { items })
    }
}

impl<A: HasWitMetadata, B: HasWitMetadata> HasWitMetadata for (A, B) {
    open spec fn spec_ident() -> Seq<char> {
        "Tuple"@
    }

    open spec fn describes(m: WitMeta) -> bool {
        &&& m matches WitMeta::Tuple(t)
        &&& t.items@.len() == 2
        &&& A::describes(t.items@[0])
        &&& B::describes(t.items@[1])
    }

    fn ident() -> (r: &'static str) {
        "Tuple"
    }

    fn wit() -> (r: WitMeta) {
        let mut items = Vec::new();
        items.push(A::wit());
        items.push(B::wit());
        WitMeta::Tuple(TupleMeta { items })
    }
}

impl<A: HasWitMetadata, B: HasWitMetadata, C: HasWitMetadata> HasWitMetadata for (A, B, C) {
    open spec fn spec_ident() -> Seq<char> {
        "Tuple"@
    }

    open spec fn describes(m: WitMeta) -> bool {
        &&& m matches WitMeta::Tuple(t)
        &&& t.items@.len() == 3
        &&& A::describes(t.items@[0])
        &&& B::describes(t.items@[1])
        &&& C::describes(t.items@[2])
    }

    fn ident() -> (r: &'static str) {
        "Tuple"
    }

    fn wit() -> (r: WitMeta) {
        let mut items = Vec::new();
        items.push(A::wit());
        items.push(B::wit());
        items.push(C::wit());
        WitMeta::Tuple(TupleMeta { items })
    }
}

} // verus!
