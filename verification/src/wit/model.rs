//! The data a WIT interface is written from: exported records, variants, enums,
//! flags and functions, and the type references they are built of.

use vstd::prelude::*;

use crate::wit::into_wit::{refs_text, wit_ref_text};

verus! {

/// Exports that will go into a generated WIT file.
pub trait HasWitExport {
    /// Whether `e` is the export this type stands for.
    spec fn describes(e: WitExport) -> bool;

    /// The export this type stands for.
    fn export() -> (r: WitExport)
        ensures
            Self::describes(r),
    ;
}

/// Types that are not exported but referred to from exports.
pub trait HasWitMeta {
    /// Whether `m` is the reference this type is written as.
    spec fn describes(m: WitMeta) -> bool;

    /// The reference this type is written as.
    fn wit_meta() -> (r: WitMeta)
        ensures
            Self::describes(r),
    ;
}

pub enum WitExport {
    Record(RecordMeta),
    Variant(VariantMeta),
    Enum(EnumMeta),
    Flag(FlagMeta),
    Function(FunctionMeta),
}

impl WitExport {
    /// The declared name of the export.
    pub open spec fn spec_name(&self) -> Seq<char> {
        match self {
            WitExport::Record(meta) => meta.name.0@,
            WitExport::Variant(meta) => meta.name.0@,
            WitExport::Enum(meta) => meta.name.0@,
            WitExport::Flag(meta) => meta.name.0@,
            WitExport::Function(meta) => meta.name.0@,
        }
    }

    /// The declared name of the export, as written in the metadata (not yet kebab-cased).
    pub fn name(&self) -> (r: &str)
        ensures
            r@ == self.spec_name(),
    {
        match self {
            WitExport::Record(meta) => meta.name.0.as_str(),
            WitExport::Variant(meta) => meta.name.0.as_str(),
            WitExport::Enum(meta) => meta.name.0.as_str(),
            WitExport::Flag(meta) => meta.name.0.as_str(),
            WitExport::Function(meta) => meta.name.0.as_str(),
        }
    }
}

/// A reference to a WIT type, as it appears inside exports.
pub enum WitMeta {
    Result(ResultMeta),
    Option(Box<WitMeta>),
    List(Box<WitMeta>),
    Tuple(TupleMeta),
    Primitive(PrimitiveMeta),
    Record(RecordMeta),
    Variant(VariantMeta),
    Enum(EnumMeta),
    FlagMeta(FlagMeta),
}

pub enum PrimitiveMeta {
    S8,
    S16,
    S32,
    S64,
    U8,
    U16,
    U32,
    U64,
    F32,
    F64,
    Bool,
    Char,
    String,
}

pub struct Ident(pub String);

pub struct FunctionMeta {
    pub name: Ident,
    pub args: Vec<(String, WitMeta)>,
    pub result: Box<WitMeta>,
}

pub struct RecordMeta {
    pub name: Ident,
    pub fields: Vec<(String, WitMeta)>,
}

pub struct EnumMeta {
    pub name: Ident,
    pub variants: Vec<Ident>,
}

pub struct FlagMeta {
    pub name: Ident,
    pub variants: Vec<Ident>,
}

pub struct ResultMeta {
    pub ok: Box<WitMeta>,
    pub err: Box<WitMeta>,
}

pub struct VariantMeta {
    pub name: Ident,
    pub fields: Vec<VariantOption>,
}

/// A case of a variant: its name and the types of its payload, none for a bare case.
pub struct VariantOption {
    pub name: Ident,
    pub fields: Vec<WitMeta>,
}

pub struct TupleMeta {
    pub items: Vec<WitMeta>,
}

// What the primitive and generic std types are referred to as. (`f32` and
// `f64` are referred to as `PrimitiveMeta::F32` and `PrimitiveMeta::F64`; this
// crate holds no floating-point type, so it gives them no impl.)

impl HasWitMeta for i8 {
    open spec fn describes(m: WitMeta) -> bool {
        m == WitMeta::Primitive(PrimitiveMeta::S8)
    }

    fn wit_meta() -> (r: WitMeta) {
        WitMeta::Primitive(PrimitiveMeta::S8)
    }
}

impl HasWitMeta for i16 {
    open spec fn describes(m: WitMeta) -> bool {
        m == WitMeta::Primitive(PrimitiveMeta::S16)
    }

    fn wit_meta() -> (r: WitMeta) {
        WitMeta::Primitive(PrimitiveMeta::S16)
    }
}

impl HasWitMeta for i32 {
    open spec fn describes(m: WitMeta) -> bool {
        m == WitMeta::Primitive(PrimitiveMeta::S32)
    }

    fn wit_meta() -> (r: WitMeta) {
        WitMeta::Primitive(PrimitiveMeta::S32)
    }
}

impl HasWitMeta for i64 {
    open spec fn describes(m: WitMeta) -> bool {
        m == WitMeta::Primitive(PrimitiveMeta::S64)
    }

    fn wit_meta() -> (r: WitMeta) {
        WitMeta::Primitive(PrimitiveMeta::S64)
    }
}

impl HasWitMeta for isize {
    open spec fn describes(m: WitMeta) -> bool {
        m == WitMeta::Primitive(PrimitiveMeta::S64)
    }

    fn wit_meta() -> (r: WitMeta) {
        WitMeta::Primitive(PrimitiveMeta::S64)
    }
}

impl HasWitMeta for u8 {
    open spec fn describes(m: WitMeta) -> bool {
        m == WitMeta::Primitive(PrimitiveMeta::U8)
    }

    fn wit_meta() -> (r: WitMeta) {
        WitMeta::Primitive(PrimitiveMeta::U8)
    }
}

impl HasWitMeta for u16 {
    open spec fn describes(m: WitMeta) -> bool {
        m == WitMeta::Primitive(PrimitiveMeta::U16)
    }

    fn wit_meta() -> (r: WitMeta) {
        WitMeta::Primitive(PrimitiveMeta::U16)
    }
}

impl HasWitMeta for u32 {
    open spec fn describes(m: WitMeta) -> bool {
        m == WitMeta::Primitive(PrimitiveMeta::U32)
    }

    fn wit_meta() -> (r: WitMeta) {
        WitMeta::Primitive(PrimitiveMeta::U32)
    }
}

impl HasWitMeta for u64 {
    open spec fn describes(m: WitMeta) -> bool {
        m == WitMeta::Primitive(PrimitiveMeta::U64)
    }

    fn wit_meta() -> (r: WitMeta) {
        WitMeta::Primitive(PrimitiveMeta::U64)
    }
}

impl HasWitMeta for usize {
    open spec fn describes(m: WitMeta) -> bool {
        m == WitMeta::Primitive(PrimitiveMeta::U64)
    }

    fn wit_meta() -> (r: WitMeta) {
        WitMeta::Primitive(PrimitiveMeta::U64)
    }
}

impl HasWitMeta for bool {
    open spec fn describes(m: WitMeta) -> bool {
        m == WitMeta::Primitive(PrimitiveMeta::Bool)
    }

    fn wit_meta() -> (r: WitMeta) {
        WitMeta::Primitive(PrimitiveMeta::Bool)
    }
}

impl HasWitMeta for char {
    open spec fn describes(m: WitMeta) -> bool {
        m == WitMeta::Primitive(PrimitiveMeta::Char)
    }

    fn wit_meta() -> (r: WitMeta) {
        WitMeta::Primitive(PrimitiveMeta::Char)
    }
}

impl HasWitMeta for String {
    open spec fn describes(m: WitMeta) -> bool {
        m == WitMeta::Primitive(PrimitiveMeta::String)
    }

    fn wit_meta() -> (r: WitMeta) {
        WitMeta::Primitive(PrimitiveMeta::String)
    }
}

impl<T: HasWitMeta, E: HasWitMeta> HasWitMeta for Result<T, E> {
    open spec fn describes(m: WitMeta) -> bool {
        m matches WitMeta::Result(r) && T::describes(*r.ok) && E::describes(*r.err)
    }

    fn wit_meta() -> (r: WitMeta) {
        WitMeta::Result(ResultMeta { ok: Box::new(T::wit_meta()), err: Box::new(E::wit_meta()) })
    }
}

impl<T: HasWitMeta> HasWitMeta for Option<T> {
    open spec fn describes(m: WitMeta) -> bool {
        m matches WitMeta::Option(inner) && T::describes(*inner)
    }

    fn wit_meta() -> (r: WitMeta) {
        WitMeta::Option(Box::new(T::wit_meta()))
    }
}

impl<T: HasWitMeta> HasWitMeta for Vec<T> {
    open spec fn describes(m: WitMeta) -> bool {
        m matches WitMeta::List(inner) && T::describes(*inner)
    }

    fn wit_meta() -> (r: WitMeta) {
        WitMeta::List(Box::new(T::wit_meta()))
    }
}

impl<A: HasWitMeta> HasWitMeta for (A,) {
    open spec fn describes(m: WitMeta) -> bool {
        m matches WitMeta::Tuple(t) && t.items@.len() == 1 && A::describes(t.items@[0])
    }

    fn wit_meta() -> (r: WitMeta) {
        let mut items = Vec::new();
        items.push(A::wit_meta());
        WitMeta::Tuple(TupleMeta { items })
    }
}

impl<A: HasWitMeta, B: HasWitMeta> HasWitMeta for (A, B) {
    open spec fn describes(m: WitMeta) -> bool {
        &&& m matches WitMeta::Tuple(t)
        &&& t.items@.len() == 2
        &&& A::describes(t.items@[0])
        &&& B::describes(t.items@[1])
    }

    fn wit_meta() -> (r: WitMeta) {
        let mut items = Vec::new();
        items.push(A::wit_meta());
        items.push(B::wit_meta());
        WitMeta::Tuple(TupleMeta { items })
    }
}

impl<A: HasWitMeta, B: HasWitMeta, C: HasWitMeta> HasWitMeta for (A, B, C) {
    open spec fn describes(m: WitMeta) -> bool {
        &&& m matches WitMeta::Tuple(t)
        &&& t.items@.len() == 3
        &&& A::describes(t.items@[0])
        &&& B::describes(t.items@[1])
        &&& C::describes(t.items@[2])
    }

    fn wit_meta() -> (r: WitMeta) {
        let mut items = Vec::new();
        items.push(A::wit_meta());
        items.push(B::wit_meta());
        items.push(C::wit_meta());
        WitMeta::Tuple(TupleMeta { items })
    }
}

/// The metadata of `Vec<T>`, `Option<T>` and `Result<T, E>` is written as the
/// list, option and result of what the metadata of `T` (and `E`) is written as.
pub proof fn law_std_container_metadata_wraps_its_items<T: HasWitMeta, E: HasWitMeta>(m: WitMeta)
    ensures
        <Vec<T> as HasWitMeta>::describes(m) ==> exists|mt: WitMeta|
            T::describes(mt) && wit_ref_text(m) == "list<"@ + wit_ref_text(mt) + ">"@,
        <Option<T> as HasWitMeta>::describes(m) ==> exists|mt: WitMeta|
            T::describes(mt) && wit_ref_text(m) == "option<"@ + wit_ref_text(mt) + ">"@,
        <Result<T, E> as HasWitMeta>::describes(m) ==> exists|mt: WitMeta, me: WitMeta|
            T::describes(mt) && E::describes(me) && wit_ref_text(m) == "result<"@ + wit_ref_text(
                mt,
            ) + ", "@ + wit_ref_text(me) + ">"@,
{
    if <Vec<T> as HasWitMeta>::describes(m) {
        let mt = *m->List_0;
        assert(T::describes(mt) && wit_ref_text(m) == "list<"@ + wit_ref_text(mt) + ">"@);
    }
    if <Option<T> as HasWitMeta>::describes(m) {
        let mt = *m->Option_0;
        assert(T::describes(mt) && wit_ref_text(m) == "option<"@ + wit_ref_text(mt) + ">"@);
    }
    if <Result<T, E> as HasWitMeta>::describes(m) {
        let (mt, me) = (*m->Result_0.ok, *m->Result_0.err);
        assert(T::describes(mt) && E::describes(me) && wit_ref_text(m) == "result<"@
            + wit_ref_text(mt) + ", "@ + wit_ref_text(me) + ">"@);
    }
}

/// The metadata of a pair is written as the tuple of what the metadata of its
/// two items is written as.
pub proof fn law_pair_metadata_is_written_as_tuple<A: HasWitMeta, B: HasWitMeta>(m: WitMeta)
    ensures
        <(A, B) as HasWitMeta>::describes(m) ==> exists|ma: WitMeta, mb: WitMeta|
            A::describes(ma) && B::describes(mb) && wit_ref_text(m) == "tuple<"@ + wit_ref_text(ma)
                + ", "@ + wit_ref_text(mb) + ">"@,
{
    if <(A, B) as HasWitMeta>::describes(m) {
        let items = m->Tuple_0.items@;
        let (ma, mb) = (items[0], items[1]);
        assert(items.drop_last() =~= seq![ma]);
        assert(seq![ma][0] == ma);
        assert(refs_text(seq![ma]) == wit_ref_text(ma));
        assert(refs_text(items) == wit_ref_text(ma) + ", "@ + wit_ref_text(mb));
        assert(A::describes(ma) && B::describes(mb) && wit_ref_text(m) == "tuple<"@
            + wit_ref_text(ma) + ", "@ + wit_ref_text(mb) + ">"@);
    }
}

} // verus!
