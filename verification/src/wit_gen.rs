//! The WIT file written for a module annotated with `create_wit_file`:
//! structs become records, enums become variants, type aliases become WIT
//! type aliases, and the functions of a trait become the interface's
//! functions.

use vstd::prelude::*;
use vstd::string::StringExecFns;

use crate::syntax::{
    EnumAst, FieldAst, FieldsAst, FnArgAst, GenericArgumentAst, ItemAst, ModuleAst, PatAst,
    PathArgumentsAst, PathSegmentAst, SignatureAst, StructAst, TraitAst, TraitItemAst, TypeAliasAst,
    TypeAst, VariantAst,
};
use crate::wit::into_wit::{primitive_text, refs_text, wit_ref_text};
use crate::wit::model::{HasWitMeta, ResultMeta, WitMeta};
use crate::text::{
    chars_of, is_upper_char, is_uppercase, join, join_strings, lower_chars, lower_text,
    lowercase_of, push_char, replace_char, replace_char_exec, str_eq, str_to_lowercase, string_of,
    views,
};

verus! {

broadcast use vstd::string::group_string_axioms;

// ---------------------------------------------------------------------------
// Names
// ---------------------------------------------------------------------------

/// The characters after the first, in kebab case: each uppercase character
/// becomes `-` and its lowercase form.
pub open spec fn kebab_tail(t: Seq<char>) -> Seq<char>
    decreases t.len(),
{
    if t.len() == 0 {
        Seq::empty()
    } else {
        (if is_upper_char(t[0]) {
            seq!['-'] + lower_chars(t[0])
        } else {
            seq![t[0]]
        }) + kebab_tail(t.drop_first())
    }
}

/// `AuctionService` to `auction-service`: the first character lowercased,
/// then every later uppercase character lowercased and preceded by `-`.
pub open spec fn pascal_to_kebab(s: Seq<char>) -> Seq<char> {
    lower_chars(s[0]) + kebab_tail(s.drop_first())
}

/// The WIT name of a Rust type name: primitives map to WIT primitives, any
/// other name is turned from PascalCase into kebab case.
pub open spec fn wit_type_name(x: Seq<char>) -> Seq<char> {
    if x == "bool"@ {
        "bool"@
    } else if x == "i8"@ {
        "s8"@
    } else if x == "i16"@ {
        "s16"@
    } else if x == "i32"@ {
        "s32"@
    } else if x == "i64"@ {
        "s64"@
    } else if x == "isize"@ {
        "s64"@
    } else if x == "u8"@ {
        "u8"@
    } else if x == "u16"@ {
        "u16"@
    } else if x == "u32"@ {
        "u32"@
    } else if x == "u64"@ {
        "u64"@
    } else if x == "usize"@ {
        "u64"@
    } else if x == "f32"@ {
        "float32"@
    } else if x == "f64"@ {
        "float64"@
    } else if x == "String"@ {
        "string"@
    } else if x == "char"@ {
        "char"@
    } else {
        pascal_to_kebab(x)
    }
}

/// A field, function or parameter name in WIT: lowercased, `_` turned into `-`.
pub open spec fn lower_kebab(s: Seq<char>) -> Seq<char> {
    replace_char(lower_text(s), '_', '-')
}

// ---------------------------------------------------------------------------
// Types
// ---------------------------------------------------------------------------

/// The WIT text of a Rust type. The last path segment decides: `Box<T>` is
/// `T`, `Vec<T>` a list, `Result<..>` a result, `Option<T>` an option, any
/// other name goes through [`wit_type_name`]. Tuples are `tuple<..>` (the
/// empty text when their items' texts join to nothing), slices lists; other
/// types have no text.
pub open spec fn resolve_text(t: TypeAst) -> Seq<char>
    decreases t,
{
    match t {
        TypeAst::Path { qself, segments } => if segments@.len() > 0 {
            segment_text(segments@.last())
        } else {
            Seq::empty()
        },
        TypeAst::Tuple(elems) => {
            let j = types_text(elems@);
            if j.len() == 0 {
                Seq::empty()
            } else {
                "tuple<"@ + j + ">"@
            }
        },
        TypeAst::Slice(elem) => "list<"@ + resolve_text(*elem) + ">"@,
        TypeAst::Reference(_) => Seq::empty(),
        TypeAst::Other => Seq::empty(),
    }
}

/// The text of a path by its last segment.
pub open spec fn segment_text(seg: PathSegmentAst) -> Seq<char>
    decreases seg,
{
    match seg.arguments {
        PathArgumentsAst::AngleBracketed(args) => if seg.ident@ == "Box"@ {
            if args@.len() > 0 {
                arg_text(args@[0])
            } else {
                Seq::empty()
            }
        } else if seg.ident@ == "Vec"@ {
            "list<"@ + (if args@.len() > 0 {
                arg_text(args@[0])
            } else {
                Seq::empty()
            }) + ">"@
        } else if seg.ident@ == "Result"@ {
            "result<"@ + args_text(args@) + ">"@
        } else if seg.ident@ == "Option"@ {
            "option<"@ + (if args@.len() > 0 {
                arg_text(args@[0])
            } else {
                Seq::empty()
            }) + ">"@
        } else {
            wit_type_name(seg.ident@)
        },
        _ => wit_type_name(seg.ident@),
    }
}

pub open spec fn arg_text(a: GenericArgumentAst) -> Seq<char>
    decreases a,
{
    match a {
        GenericArgumentAst::Type(t) => resolve_text(t),
        GenericArgumentAst::Other => Seq::empty(),
    }
}

/// Generic arguments' texts joined by `, `.
pub open spec fn args_text(args: Seq<GenericArgumentAst>) -> Seq<char>
    decreases args,
{
    if args.len() == 0 {
        Seq::empty()
    } else if args.len() == 1 {
        arg_text(args[0])
    } else {
        args_text(args.drop_last()) + ", "@ + arg_text(args.last())
    }
}

/// Types' texts joined by `, `.
pub open spec fn types_text(ts: Seq<TypeAst>) -> Seq<char>
    decreases ts,
{
    if ts.len() == 0 {
        Seq::empty()
    } else if ts.len() == 1 {
        resolve_text(ts[0])
    } else {
        types_text(ts.drop_last()) + ", "@ + resolve_text(ts.last())
    }
}

/// The type can be resolved: no path is empty or starts with `super`, `Box`
/// has a type argument, `Vec` and `Option` with arguments have a type first,
/// `Result` with arguments has only types, and every type inside is resolvable.
pub open spec fn resolvable(t: TypeAst) -> bool
    decreases t,
{
    match t {
        TypeAst::Path { qself, segments } => {
            &&& segments@.len() > 0
            &&& segments@[0].ident@ != "super"@
            &&& segment_resolvable(segments@.last())
        },
        TypeAst::Tuple(elems) => types_resolvable(elems@),
        TypeAst::Slice(elem) => resolvable(*elem),
        TypeAst::Reference(_) => true,
        TypeAst::Other => true,
    }
}

pub open spec fn segment_resolvable(seg: PathSegmentAst) -> bool
    decreases seg,
{
    match seg.arguments {
        PathArgumentsAst::AngleBracketed(args) => if seg.ident@ == "Box"@ || seg.ident@ == "Vec"@
            || seg.ident@ == "Option"@ {
            args@.len() > 0 && arg_resolvable(args@[0])
        } else if seg.ident@ == "Result"@ {
            args_resolvable(args@)
        } else {
            seg.ident@.len() > 0
        },
        _ => seg.ident@ != "Box"@ && seg.ident@.len() > 0,
    }
}

pub open spec fn arg_resolvable(a: GenericArgumentAst) -> bool
    decreases a,
{
    match a {
        GenericArgumentAst::Type(t) => resolvable(t),
        GenericArgumentAst::Other => false,
    }
}

pub open spec fn args_resolvable(args: Seq<GenericArgumentAst>) -> bool
    decreases args,
{
    if args.len() == 0 {
        true
    } else {
        args_resolvable(args.drop_last()) && arg_resolvable(args.last())
    }
}

pub open spec fn types_resolvable(ts: Seq<TypeAst>) -> bool
    decreases ts,
{
    if ts.len() == 0 {
        true
    } else {
        types_resolvable(ts.drop_last()) && resolvable(ts.last())
    }
}

/// `AuctionService` to `auction-service`.
pub fn pascal_case_to_kebab_case(pascal_case: &str) -> (r: String)
    requires
        pascal_case@.len() > 0,
    ensures
        r@ == pascal_to_kebab(pascal_case@),
{
    let chars = chars_of(pascal_case);
    let mut out = lowercase_of(chars[0]);
    let ghost s = pascal_case@;
    let mut i: usize = 1;
    assert(s.skip(1) =~= s.drop_first());
    while i < chars.len()
        invariant
            1 <= i <= chars@.len(),
            chars@ == s,
            out@ + kebab_tail(s.skip(i as int)) == pascal_to_kebab(s),
        decreases chars@.len() - i,
    {
        let c = chars[i];
        assert(s.skip(i as int)[0] == c);
        assert(s.skip(i as int).drop_first() =~= s.skip(i + 1));
        if is_uppercase(c) {
            push_char(&mut out, '-');
            let lowered = lowercase_of(c);
            out.append(lowered.as_str());
        } else {
            push_char(&mut out, c);
        }
        i = i + 1;
    }
    assert(s.skip(chars@.len() as int) =~= Seq::<char>::empty());
    out
}

/// The WIT name of a Rust type name: see [`wit_type_name`].
pub fn convert_rust_types_to_wit_types(rust_tpe: &str) -> (r: String)
    requires
        rust_tpe@.len() > 0,
    ensures
        r@ == wit_type_name(rust_tpe@),
{
    if str_eq(rust_tpe, "bool") {
        string_of("bool")
    } else if str_eq(rust_tpe, "i8") {
        string_of("s8")
    } else if str_eq(rust_tpe, "i16") {
        string_of("s16")
    } else if str_eq(rust_tpe, "i32") {
        string_of("s32")
    } else if str_eq(rust_tpe, "i64") {
        string_of("s64")
    } else if str_eq(rust_tpe, "isize") {
        string_of("s64")
    } else if str_eq(rust_tpe, "u8") {
        string_of("u8")
    } else if str_eq(rust_tpe, "u16") {
        string_of("u16")
    } else if str_eq(rust_tpe, "u32") {
        string_of("u32")
    } else if str_eq(rust_tpe, "u64") {
        string_of("u64")
    } else if str_eq(rust_tpe, "usize") {
        string_of("u64")
    } else if str_eq(rust_tpe, "f32") {
        string_of("float32")
    } else if str_eq(rust_tpe, "f64") {
        string_of("float64")
    } else if str_eq(rust_tpe, "String") {
        string_of("string")
    } else if str_eq(rust_tpe, "char") {
        string_of("char")
    } else {
        pascal_case_to_kebab_case(rust_tpe)
    }
}

/// The WIT text of a Rust type: see [`resolve_text`].
pub fn resolve_type(ty: &TypeAst) -> (r: String)
    requires
        resolvable(*ty),
    ensures
        r@ == resolve_text(*ty),
    decreases *ty, 3nat,
{
    match ty {
        TypeAst::Path { qself, segments } => {
            let seg = &segments[segments.len() - 1];
            assert(decreases_to!(*ty => ty->segments));
            assert(decreases_to!(ty->segments => ty->segments@));
            assert(decreases_to!(ty->segments@ => ty->segments@[segments@.len() - 1]));
            resolve_segment(seg, ty)
        },
        TypeAst::Tuple(elems) => {
            let mut parts: Vec<String> = Vec::new();
            let ghost ts = elems@;
            let mut i: usize = 0;
            while i < elems.len()
                invariant
                    i <= ts.len(),
                    ts == elems@,
                    *ty == TypeAst::Tuple(*elems),
                    types_resolvable(ts),
                    parts@.len() == i,
                    forall|j: int| 0 <= j < i ==> (#[trigger] parts@[j])@ == resolve_text(ts[j]),
                decreases ts.len() - i,
            {
                proof {
                    lemma_types_resolvable_index(ts, i as int);
                }
                assert(decreases_to!(*ty => ty->Tuple_0));
                assert(decreases_to!(ty->Tuple_0 => ty->Tuple_0@));
                assert(decreases_to!(ty->Tuple_0@ => ty->Tuple_0@[i as int]));
                let t = resolve_type(&elems[i]);
                parts.push(t);
                i = i + 1;
            }
            let joined = join_strings(&parts, ", ");
            proof {
                lemma_types_text_join(ts, views(parts@));
            }
            if joined.as_str().is_empty() {
                String::new()
            } else {
                let mut out = string_of("tuple<");
                out.append(joined.as_str());
                out.append(">");
                out
            }
        },
        TypeAst::Slice(elem) => {
            let mut out = string_of("list<");
            let t = resolve_type(elem);
            out.append(t.as_str());
            out.append(">");
            out
        },
        TypeAst::Reference(_) => String::new(),
        TypeAst::Other => String::new(),
    }
}

/// The text of a path by its last segment: see [`segment_text`].
fn resolve_segment(seg: &PathSegmentAst, ty: &TypeAst) -> (r: String)
    requires
        segment_resolvable(*seg),
        decreases_to!(*ty => *seg),
    ensures
        r@ == segment_text(*seg),
    decreases *ty, 2nat,
{
    let name = seg.ident.as_str();
    match &seg.arguments {
        PathArgumentsAst::AngleBracketed(args) => {
            assert(decreases_to!(*seg => seg.arguments));
            assert(decreases_to!(seg.arguments => seg.arguments->AngleBracketed_0));
            assert(decreases_to!(seg.arguments->AngleBracketed_0 => seg.arguments->AngleBracketed_0@));
            if str_eq(name, "Box") {
                assert(decreases_to!(args@ => args@[0]));
                resolve_argument(&args[0], ty)
            } else if str_eq(name, "Vec") {
                assert(decreases_to!(args@ => args@[0]));
                let mut out = string_of("list<");
                let t = resolve_argument(&args[0], ty);
                out.append(t.as_str());
                out.append(">");
                out
            } else if str_eq(name, "Result") {
                proof {
                    reveal_strlit("Result");
                    reveal_strlit("Option");
                    assert(seg.ident@[0] == 'R');
                }
                let mut parts: Vec<String> = Vec::new();
                let ghost xs = args@;
                let mut i: usize = 0;
                while i < args.len()
                    invariant
                        i <= xs.len(),
                        xs == args@,
                        decreases_to!(*ty => *seg),
                        seg.arguments == PathArgumentsAst::AngleBracketed(*args),
                        args_resolvable(xs),
                        parts@.len() == i,
                        forall|j: int| 0 <= j < i ==> (#[trigger] parts@[j])@ == arg_text(xs[j]),
                    decreases xs.len() - i,
                {
                    proof {
                        lemma_args_resolvable_index(xs, i as int);
                    }
                    assert(decreases_to!(*seg => seg.arguments));
                    assert(decreases_to!(seg.arguments => seg.arguments->AngleBracketed_0));
                    assert(decreases_to!(seg.arguments->AngleBracketed_0 => seg.arguments->AngleBracketed_0@));
                    assert(decreases_to!(args@ => args@[i as int]));
                    let t = resolve_argument(&args[i], ty);
                    parts.push(t);
                    i = i + 1;
                }
                let joined = join_strings(&parts, ", ");
                proof {
                    lemma_args_text_join(xs, views(parts@));
                }
                let mut out = string_of("result<");
                out.append(joined.as_str());
                out.append(">");
                out
            } else if str_eq(name, "Option") {
                assert(decreases_to!(args@ => args@[0]));
                let mut out = string_of("option<");
                let t = resolve_argument(&args[0], ty);
                out.append(t.as_str());
                out.append(">");
                out
            } else {
                convert_rust_types_to_wit_types(name)
            }
        },
        _ => convert_rust_types_to_wit_types(name),
    }
}

/// The text of a generic argument that is a type.
fn resolve_argument(arg: &GenericArgumentAst, ty: &TypeAst) -> (r: String)
    requires
        arg_resolvable(*arg),
        decreases_to!(*ty => *arg),
    ensures
        r@ == arg_text(*arg),
    decreases *ty, 1nat,
{
    match arg {
        GenericArgumentAst::Type(t) => {
            assert(decreases_to!(*arg => arg->Type_0));
            resolve_type(t)
        },
        GenericArgumentAst::Other => String::new(),
    }
}

proof fn lemma_types_resolvable_index(ts: Seq<TypeAst>, i: int)
    requires
        types_resolvable(ts),
        0 <= i < ts.len(),
    ensures
        resolvable(ts[i]),
    decreases ts.len(),
{
    if i < ts.len() - 1 {
        lemma_types_resolvable_index(ts.drop_last(), i);
    }
}

proof fn lemma_args_resolvable_index(xs: Seq<GenericArgumentAst>, i: int)
    requires
        args_resolvable(xs),
        0 <= i < xs.len(),
    ensures
        arg_resolvable(xs[i]),
    decreases xs.len(),
{
    if i < xs.len() - 1 {
        lemma_args_resolvable_index(xs.drop_last(), i);
    }
}

proof fn lemma_types_text_join(ts: Seq<TypeAst>, parts: Seq<Seq<char>>)
    requires
        parts.len() == ts.len(),
        forall|j: int| 0 <= j < ts.len() ==> #[trigger] parts[j] == resolve_text(ts[j]),
    ensures
        join(parts, ", "@) == types_text(ts),
    decreases ts.len(),
{
    if ts.len() > 1 {
        lemma_types_text_join(ts.drop_last(), parts.drop_last());
    }
}

proof fn lemma_args_text_join(xs: Seq<GenericArgumentAst>, parts: Seq<Seq<char>>)
    requires
        parts.len() == xs.len(),
        forall|j: int| 0 <= j < xs.len() ==> #[trigger] parts[j] == arg_text(xs[j]),
    ensures
        join(parts, ", "@) == args_text(xs),
    decreases xs.len(),
{
    if xs.len() > 1 {
        lemma_args_text_join(xs.drop_last(), parts.drop_last());
    }
}

// ---------------------------------------------------------------------------
// Items
// ---------------------------------------------------------------------------

/// A parameter `name: type`, the name lowercased with `-` for `_`.
pub open spec fn param_text(pat: PatAst, ty: TypeAst) -> Seq<char> {
    match pat {
        PatAst::Ident(name) => lower_kebab(name@) + ": "@ + resolve_text(ty),
        PatAst::Other => Seq::empty(),
    }
}

/// The return type's text, empty when none is written.
pub open spec fn return_text(output: Option<TypeAst>) -> Seq<char> {
    match output {
        None => Seq::empty(),
        Some(t) => resolve_text(t),
    }
}

pub open spec fn fn_arg_text(arg: FnArgAst) -> Seq<char> {
    match arg {
        FnArgAst::Typed(pat, ty) => param_text(pat, ty),
        FnArgAst::Receiver => Seq::empty(),
    }
}

/// A record field `name: type`.
pub open spec fn field_line(f: FieldAst) -> Seq<char> {
    lower_kebab(f.ident->Some_0@) + ": "@ + resolve_text(f.ty)
}

/// A struct as a WIT record.
pub open spec fn struct_text(s: StructAst) -> Seq<char> {
    let title = pascal_to_kebab(s.ident@);
    let fields = join(s.fields@.map_values(|f: FieldAst| field_line(f)), ", \n\t\t"@);
    if fields.len() == 0 {
        "    record "@ + title + " {}"@
    } else {
        "\n    record "@ + title + " {\n        "@ + fields + ",\n    }"@
    }
}

/// A trait function as a WIT function.
pub open spec fn fn_text(sig: SignatureAst) -> Seq<char> {
    let title = lower_kebab(sig.ident@);
    let params = join(sig.inputs@.map_values(|a: FnArgAst| fn_arg_text(a)), ", "@);
    let ret = return_text(sig.output);
    if ret.len() == 0 {
        "\n    "@ + title + ": func("@ + params + ")\n                "@
    } else {
        "\n    "@ + title + ": func("@ + params + ") -> "@ + ret + "\n                "@
    }
}

pub open spec fn trait_item_text(item: TraitItemAst) -> Seq<char> {
    match item {
        TraitItemAst::Fn(sig) => fn_text(sig),
        TraitItemAst::Other => Seq::empty(),
    }
}

/// The functions of a trait, one after another.
pub open spec fn trait_text(t: TraitAst) -> Seq<char> {
    join(t.items@.map_values(|i: TraitItemAst| trait_item_text(i)), "\n"@)
}

/// The types of a variant's fields joined by `, `.
pub open spec fn field_types_text(fields: Seq<FieldAst>) -> Seq<char> {
    join(fields.map_values(|f: FieldAst| resolve_text(f.ty)), ", "@)
}

/// A variant case: its name, and its field types in parentheses when it has fields.
pub open spec fn case_text(v: VariantAst) -> Seq<char> {
    let name = pascal_to_kebab(v.ident@);
    match v.fields {
        FieldsAst::Named(fs) => name + "("@ + field_types_text(fs@) + ")"@,
        FieldsAst::Unnamed(fs) => name + "("@ + field_types_text(fs@) + ")"@,
        FieldsAst::Unit => name,
    }
}

/// An enum as a WIT variant.
pub open spec fn enum_text(e: EnumAst) -> Seq<char> {
    "\n    variant "@ + pascal_to_kebab(e.ident@) + " {\n        "@ + join(
        e.variants@.map_values(|v: VariantAst| case_text(v)),
        ", \n \t\t"@,
    ) + "\n    }\n                "@
}

/// A type alias as a WIT type alias.
pub open spec fn alias_text(a: TypeAliasAst) -> Seq<char> {
    "    type "@ + pascal_to_kebab(a.ident@) + " = "@ + resolve_text(a.ty)
}

pub open spec fn item_text(item: ItemAst) -> Seq<char> {
    match item {
        ItemAst::Struct(s) => struct_text(s),
        ItemAst::Trait(t) => trait_text(t),
        ItemAst::Enum(e) => enum_text(e),
        ItemAst::Type(a) => alias_text(a),
        ItemAst::Other => Seq::empty(),
    }
}

/// The package name: the module name lowercased, `_` turned into `:`.
pub open spec fn package_name(m: ModuleAst) -> Seq<char> {
    replace_char(lower_text(m.ident@), '_', ':')
}

/// The WIT file for a module: its package, an interface `api` holding the
/// items' texts joined by newlines, and a world `golem-service` exporting it.
pub open spec fn witfile_text(m: ModuleAst) -> Seq<char> {
    "package "@ + package_name(m) + "\n\ninterface api {\n"@ + join(
        m.items->Some_0@.map_values(|i: ItemAst| item_text(i)),
        "\n"@,
    ) + "\n}\n\nworld golem-service {\n    export api\n}"@
}

// What the generator accepts. Everything else makes it panic.

pub open spec fn field_supported(f: FieldAst) -> bool {
    f.ident is Some && resolvable(f.ty)
}

pub open spec fn struct_supported(s: StructAst) -> bool {
    &&& s.ident@.len() > 0
    &&& pascal_to_kebab(s.ident@) != "option"@
    &&& pascal_to_kebab(s.ident@) != "result"@
    &&& forall|i: int| 0 <= i < s.fields@.len() ==> field_supported(#[trigger] s.fields@[i])
}

pub open spec fn fn_arg_supported(arg: FnArgAst) -> bool {
    arg matches FnArgAst::Typed(pat, ty) && pat is Ident && resolvable(ty)
}

pub open spec fn sig_supported(sig: SignatureAst) -> bool {
    &&& forall|i: int| 0 <= i < sig.inputs@.len() ==> fn_arg_supported(#[trigger] sig.inputs@[i])
    &&& (sig.output matches Some(t) ==> resolvable(t))
}

pub open spec fn trait_item_supported(item: TraitItemAst) -> bool {
    item matches TraitItemAst::Fn(sig) && sig_supported(sig)
}

pub open spec fn trait_supported(t: TraitAst) -> bool {
    &&& t.ident@.len() > 0
    &&& forall|i: int| 0 <= i < t.items@.len() ==> trait_item_supported(#[trigger] t.items@[i])
}

pub open spec fn fields_resolvable(fs: Seq<FieldAst>) -> bool {
    forall|i: int| 0 <= i < fs.len() ==> resolvable(#[trigger] fs[i].ty)
}

pub open spec fn variant_supported(v: VariantAst) -> bool {
    &&& v.ident@.len() > 0
    &&& match v.fields {
        FieldsAst::Named(fs) => fields_resolvable(fs@),
        FieldsAst::Unnamed(fs) => fields_resolvable(fs@),
        FieldsAst::Unit => true,
    }
}

pub open spec fn enum_supported(e: EnumAst) -> bool {
    &&& e.ident@.len() > 0
    &&& forall|i: int| 0 <= i < e.variants@.len() ==> variant_supported(#[trigger] e.variants@[i])
}

pub open spec fn item_supported(item: ItemAst) -> bool {
    match item {
        ItemAst::Struct(s) => struct_supported(s),
        ItemAst::Trait(t) => trait_supported(t),
        ItemAst::Enum(e) => enum_supported(e),
        ItemAst::Type(a) => a.ident@.len() > 0 && resolvable(a.ty),
        ItemAst::Other => false,
    }
}

/// The module has a body, and every item is a struct, trait or enum that the
/// generator handles.
pub open spec fn module_supported(m: ModuleAst) -> bool {
    &&& m.items is Some
    &&& forall|i: int|
        0 <= i < m.items->Some_0@.len() ==> item_supported(#[trigger] m.items->Some_0@[i])
}

/// `name.to_lowercase().replace("_", "-")`.
fn lower_kebab_exec(name: &str) -> (r: String)
    ensures
        r@ == lower_kebab(name@),
{
    let lowered = str_to_lowercase(name);
    replace_char_exec(lowered.as_str(), '_', '-')
}

/// Whether a record may carry this (kebab-cased) name: WIT keywords `option`
/// and `result` may not.
pub fn check_unsupported_identifiers(name: &str) -> (r: bool)
    ensures
        r == (name@ != "option"@ && name@ != "result"@),
{
    !str_eq(name, "option") && !str_eq(name, "result")
}

/// The return type's text: see [`return_text`].
pub fn extract_return_type(return_type: &Option<TypeAst>) -> (r: String)
    requires
        *return_type matches Some(t) ==> resolvable(t),
    ensures
        r@ == return_text(*return_type),
{
    match return_type {
        None => String::new(),
        Some(t) => resolve_type(t),
    }
}

/// `full_name: String` to `full-name: string`.
pub fn pat_type_to_param(pat: &PatAst, ty: &TypeAst) -> (r: String)
    requires
        pat is Ident,
        resolvable(*ty),
    ensures
        r@ == param_text(*pat, *ty),
{
    match pat {
        PatAst::Ident(name) => {
            let mut param_name = lower_kebab_exec(name.as_str());
            param_name.append(": ");
            let param_tpe = resolve_type(ty);
            param_name.append(param_tpe.as_str());
            param_name
        },
        PatAst::Other => String::new(),
    }
}

fn struct_to_record(s: &StructAst) -> (r: String)
    requires
        struct_supported(*s),
    ensures
        r@ == struct_text(*s),
{
    let title = pascal_case_to_kebab_case(s.ident.as_str());
    let mut parts: Vec<String> = Vec::new();
    let mut i: usize = 0;
    while i < s.fields.len()
        invariant
            struct_supported(*s),
            i <= s.fields@.len(),
            parts@.len() == i,
            forall|j: int| 0 <= j < i ==> (#[trigger] parts@[j])@ == field_line(s.fields@[j]),
        decreases s.fields@.len() - i,
    {
        let f = &s.fields[i];
        assert(field_supported(s.fields@[i as int]));
        let name = match &f.ident {
            Some(n) => n,
            None => {
                assert(false);
                return String::new();
            },
        };
        let mut line = lower_kebab_exec(name.as_str());
        line.append(": ");
        let t = resolve_type(&f.ty);
        line.append(t.as_str());
        parts.push(line);
        i = i + 1;
    }
    assert(views(parts@) =~= s.fields@.map_values(|f: FieldAst| field_line(f)));
    let fields = join_strings(&parts, ", \n\t\t");
    if fields.as_str().is_empty() {
        let mut out = string_of("    record ");
        out.append(title.as_str());
        out.append(" {}");
        out
    } else {
        let mut out = string_of("\n    record ");
        out.append(title.as_str());
        out.append(" {\n        ");
        out.append(fields.as_str());
        out.append(",\n    }");
        out
    }
}

fn signature_to_function(sig: &SignatureAst) -> (r: String)
    requires
        sig_supported(*sig),
    ensures
        r@ == fn_text(*sig),
{
    let title = lower_kebab_exec(sig.ident.as_str());
    let ret_tpe = extract_return_type(&sig.output);
    let mut parts: Vec<String> = Vec::new();
    let mut i: usize = 0;
    while i < sig.inputs.len()
        invariant
            sig_supported(*sig),
            i <= sig.inputs@.len(),
            parts@.len() == i,
            forall|j: int| 0 <= j < i ==> (#[trigger] parts@[j])@ == fn_arg_text(sig.inputs@[j]),
        decreases sig.inputs@.len() - i,
    {
        assert(fn_arg_supported(sig.inputs@[i as int]));
        match &sig.inputs[i] {
            FnArgAst::Typed(pat, ty) => {
                parts.push(pat_type_to_param(pat, ty));
            },
            FnArgAst::Receiver => {
                parts.push(String::new());
            },
        }
        i = i + 1;
    }
    assert(views(parts@) =~= sig.inputs@.map_values(|a: FnArgAst| fn_arg_text(a)));
    let params = join_strings(&parts, ", ");
    let mut out = string_of("\n    ");
    out.append(title.as_str());
    out.append(": func(");
    out.append(params.as_str());
    if ret_tpe.as_str().is_empty() {
        out.append(")\n                ");
    } else {
        out.append(") -> ");
        out.append(ret_tpe.as_str());
        out.append("\n                ");
    }
    out
}

fn trait_to_functions(t: &TraitAst) -> (r: String)
    requires
        trait_supported(*t),
    ensures
        r@ == trait_text(*t),
{
    // The trait's own name is not written, but it is still converted.
    let _ = pascal_case_to_kebab_case(t.ident.as_str());
    let mut parts: Vec<String> = Vec::new();
    let mut i: usize = 0;
    while i < t.items.len()
        invariant
            trait_supported(*t),
            i <= t.items@.len(),
            parts@.len() == i,
            forall|j: int| 0 <= j < i ==> (#[trigger] parts@[j])@ == trait_item_text(t.items@[j]),
        decreases t.items@.len() - i,
    {
        assert(trait_item_supported(t.items@[i as int]));
        match &t.items[i] {
            TraitItemAst::Fn(sig) => {
                parts.push(signature_to_function(sig));
            },
            TraitItemAst::Other => {
                parts.push(String::new());
            },
        }
        i = i + 1;
    }
    assert(views(parts@) =~= t.items@.map_values(|i: TraitItemAst| trait_item_text(i)));
    join_strings(&parts, "\n")
}

fn field_types(fields: &Vec<FieldAst>) -> (r: String)
    requires
        fields_resolvable(fields@),
    ensures
        r@ == field_types_text(fields@),
{
    let mut parts: Vec<String> = Vec::new();
    let mut i: usize = 0;
    while i < fields.len()
        invariant
            fields_resolvable(fields@),
            i <= fields@.len(),
            parts@.len() == i,
            forall|j: int| 0 <= j < i ==> (#[trigger] parts@[j])@ == resolve_text(fields@[j].ty),
        decreases fields@.len() - i,
    {
        assert(resolvable(fields@[i as int].ty));
        parts.push(resolve_type(&fields[i].ty));
        i = i + 1;
    }
    assert(views(parts@) =~= fields@.map_values(|f: FieldAst| resolve_text(f.ty)));
    join_strings(&parts, ", ")
}

fn variant_to_case(v: &VariantAst) -> (r: String)
    requires
        variant_supported(*v),
    ensures
        r@ == case_text(*v),
{
    let mut name = pascal_case_to_kebab_case(v.ident.as_str());
    match &v.fields {
        FieldsAst::Named(fs) => {
            let tpes = field_types(fs);
            name.append("(");
            name.append(tpes.as_str());
            name.append(")");
            name
        },
        FieldsAst::Unnamed(fs) => {
            let tpes = field_types(fs);
            name.append("(");
            name.append(tpes.as_str());
            name.append(")");
            name
        },
        FieldsAst::Unit => name,
    }
}

fn enum_to_variant(e: &EnumAst) -> (r: String)
    requires
        enum_supported(*e),
    ensures
        r@ == enum_text(*e),
{
    let title = pascal_case_to_kebab_case(e.ident.as_str());
    let mut parts: Vec<String> = Vec::new();
    let mut i: usize = 0;
    while i < e.variants.len()
        invariant
            enum_supported(*e),
            i <= e.variants@.len(),
            parts@.len() == i,
            forall|j: int| 0 <= j < i ==> (#[trigger] parts@[j])@ == case_text(e.variants@[j]),
        decreases e.variants@.len() - i,
    {
        assert(variant_supported(e.variants@[i as int]));
        parts.push(variant_to_case(&e.variants[i]));
        i = i + 1;
    }
    assert(views(parts@) =~= e.variants@.map_values(|v: VariantAst| case_text(v)));
    let body = join_strings(&parts, ", \n \t\t");
    let mut out = string_of("\n    variant ");
    out.append(title.as_str());
    out.append(" {\n        ");
    out.append(body.as_str());
    out.append("\n    }\n                ");
    out
}

fn alias_to_type(a: &TypeAliasAst) -> (r: String)
    requires
        a.ident@.len() > 0,
        resolvable(a.ty),
    ensures
        r@ == alias_text(*a),
{
    let mut out = string_of("    type ");
    let name = pascal_case_to_kebab_case(a.ident.as_str());
    out.append(name.as_str());
    out.append(" = ");
    let t = resolve_type(&a.ty);
    out.append(t.as_str());
    out
}

/// The WIT file's text for a module: see [`witfile_text`]. (The text starts
/// with `package` and ends with `}`, so trimming it changes nothing.)
pub fn witfile_content(module: &ModuleAst) -> (r: String)
    requires
        module_supported(*module),
    ensures
        r@ == witfile_text(*module),
{
    let lowered = str_to_lowercase(module.ident.as_str());
    let package_name = replace_char_exec(lowered.as_str(), '_', ':');
    let items = match &module.items {
        Some(items) => items,
        None => {
            assert(false);
            return String::new();
        },
    };
    let mut parts: Vec<String> = Vec::new();
    let mut i: usize = 0;
    while i < items.len()
        invariant
            module.items == Some(*items),
            module_supported(*module),
            i <= items@.len(),
            parts@.len() == i,
            forall|j: int| 0 <= j < i ==> (#[trigger] parts@[j])@ == item_text(items@[j]),
        decreases items@.len() - i,
    {
        assert(module.items->Some_0@ == items@);
        assert(item_supported(module.items->Some_0@[i as int]));
        match &items[i] {
            ItemAst::Struct(s) => parts.push(struct_to_record(s)),
            ItemAst::Trait(t) => parts.push(trait_to_functions(t)),
            ItemAst::Enum(e) => parts.push(enum_to_variant(e)),
            ItemAst::Type(a) => parts.push(alias_to_type(a)),
            ItemAst::Other => parts.push(String::new()),
        }
        i = i + 1;
    }
    assert(views(parts@) =~= items@.map_values(|i: ItemAst| item_text(i)));
    let content = join_strings(&parts, "\n");
    let mut out = string_of("package ");
    out.append(package_name.as_str());
    out.append("\n\ninterface api {\n");
    out.append(content.as_str());
    out.append("\n}\n\nworld golem-service {\n    export api\n}");
    out
}

// ---------------------------------------------------------------------------
// Deciding what the generator accepts
// ---------------------------------------------------------------------------

/// Decides [`resolvable`].
pub fn is_resolvable(ty: &TypeAst) -> (r: bool)
    ensures
        r == resolvable(*ty),
    decreases *ty, 3nat,
{
    match ty {
        TypeAst::Path { qself, segments } => {
            if segments.len() == 0 || str_eq(segments[0].ident.as_str(), "super") {
                return false;
            }
            let seg = &segments[segments.len() - 1];
            assert(decreases_to!(*ty => ty->segments));
            assert(decreases_to!(ty->segments => ty->segments@));
            assert(decreases_to!(ty->segments@ => ty->segments@[segments@.len() - 1]));
            segment_is_resolvable(seg, ty)
        },
        TypeAst::Tuple(elems) => {
            let ghost ts = elems@;
            let mut i: usize = 0;
            while i < elems.len()
                invariant
                    i <= ts.len(),
                    ts == elems@,
                    *ty == TypeAst::Tuple(*elems),
                    types_resolvable(ts.take(i as int)),
                decreases ts.len() - i,
            {
                assert(ts.take(i + 1).drop_last() =~= ts.take(i as int));
                assert(decreases_to!(*ty => ty->Tuple_0));
                assert(decreases_to!(ty->Tuple_0 => ty->Tuple_0@));
                assert(decreases_to!(ty->Tuple_0@ => ty->Tuple_0@[i as int]));
                if !is_resolvable(&elems[i]) {
                    proof {
                        if types_resolvable(ts) {
                            lemma_types_resolvable_index(ts, i as int);
                        }
                    }
                    return false;
                }
                i = i + 1;
            }
            assert(ts.take(ts.len() as int) =~= ts);
            true
        },
        TypeAst::Slice(elem) => is_resolvable(elem),
        TypeAst::Reference(_) => true,
        TypeAst::Other => true,
    }
}

fn segment_is_resolvable(seg: &PathSegmentAst, ty: &TypeAst) -> (r: bool)
    requires
        decreases_to!(*ty => *seg),
    ensures
        r == segment_resolvable(*seg),
    decreases *ty, 2nat,
{
    let name = seg.ident.as_str();
    let is_box = str_eq(name, "Box");
    match &seg.arguments {
        PathArgumentsAst::AngleBracketed(args) => {
            assert(decreases_to!(*seg => seg.arguments));
            assert(decreases_to!(seg.arguments => seg.arguments->AngleBracketed_0));
            assert(decreases_to!(seg.arguments->AngleBracketed_0 => seg.arguments->AngleBracketed_0@));
            if is_box || str_eq(name, "Vec") || str_eq(name, "Option") {
                if args.len() == 0 {
                    return false;
                }
                assert(decreases_to!(args@ => args@[0]));
                argument_is_resolvable(&args[0], ty)
            } else if str_eq(name, "Result") {
                proof {
                    reveal_strlit("Result");
                    reveal_strlit("Option");
                    reveal_strlit("Box");
                    reveal_strlit("Vec");
                    assert(seg.ident@[0] == 'R');
                }
                let ghost xs = args@;
                let mut i: usize = 0;
                while i < args.len()
                    invariant
                        i <= xs.len(),
                        xs == args@,
                        decreases_to!(*ty => *seg),
                        seg.arguments == PathArgumentsAst::AngleBracketed(*args),
                        segment_resolvable(*seg) == args_resolvable(xs),
                        args_resolvable(xs.take(i as int)),
                    decreases xs.len() - i,
                {
                    assert(xs.take(i + 1).drop_last() =~= xs.take(i as int));
                    assert(decreases_to!(*seg => seg.arguments));
                    assert(decreases_to!(seg.arguments => seg.arguments->AngleBracketed_0));
                    assert(decreases_to!(seg.arguments->AngleBracketed_0 => seg.arguments->AngleBracketed_0@));
                    assert(decreases_to!(args@ => args@[i as int]));
                    if !argument_is_resolvable(&args[i], ty) {
                        proof {
                            if args_resolvable(xs) {
                                lemma_args_resolvable_index(xs, i as int);
                            }
                        }
                        return false;
                    }
                    i = i + 1;
                }
                assert(xs.take(xs.len() as int) =~= xs);
                true
            } else {
                !name.is_empty()
            }
        },
        _ => !is_box && !name.is_empty(),
    }
}

fn argument_is_resolvable(arg: &GenericArgumentAst, ty: &TypeAst) -> (r: bool)
    requires
        decreases_to!(*ty => *arg),
    ensures
        r == arg_resolvable(*arg),
    decreases *ty, 1nat,
{
    match arg {
        GenericArgumentAst::Type(t) => {
            assert(decreases_to!(*arg => arg->Type_0));
            is_resolvable(t)
        },
        GenericArgumentAst::Other => false,
    }
}

fn fields_are_resolvable(fs: &Vec<FieldAst>) -> (r: bool)
    ensures
        r == fields_resolvable(fs@),
{
    let mut i: usize = 0;
    while i < fs.len()
        invariant
            i <= fs@.len(),
            forall|j: int| 0 <= j < i ==> resolvable(#[trigger] fs@[j].ty),
        decreases fs@.len() - i,
    {
        if !is_resolvable(&fs[i].ty) {
            assert(!resolvable(fs@[i as int].ty));
            return false;
        }
        i = i + 1;
    }
    true
}

#[verifier::loop_isolation(false)]
fn item_is_supported(item: &ItemAst) -> (r: bool)
    ensures
        r == item_supported(*item),
{
    match item {
        ItemAst::Struct(s) => {
            if s.ident.as_str().is_empty() {
                return false;
            }
            let title = pascal_case_to_kebab_case(s.ident.as_str());
            if !check_unsupported_identifiers(title.as_str()) {
                return false;
            }
            let mut i: usize = 0;
            while i < s.fields.len()
                invariant
                    i <= s.fields@.len(),
                    forall|j: int| 0 <= j < i ==> field_supported(#[trigger] s.fields@[j]),
                decreases s.fields@.len() - i,
            {
                let f = &s.fields[i];
                if f.ident.is_none() || !is_resolvable(&f.ty) {
                    assert(!field_supported(s.fields@[i as int]));
                    return false;
                }
                i = i + 1;
            }
            true
        },
        ItemAst::Trait(t) => {
            if t.ident.as_str().is_empty() {
                return false;
            }
            let mut i: usize = 0;
            while i < t.items.len()
                invariant
                    i <= t.items@.len(),
                    forall|j: int| 0 <= j < i ==> trait_item_supported(#[trigger] t.items@[j]),
                decreases t.items@.len() - i,
            {
                match &t.items[i] {
                    TraitItemAst::Fn(sig) => {
                        let ok_output = match &sig.output {
                            Some(o) => is_resolvable(o),
                            None => true,
                        };
                        if !ok_output {
                            assert(!trait_item_supported(t.items@[i as int]));
                            return false;
                        }
                        let mut k: usize = 0;
                        while k < sig.inputs.len()
                            invariant
                                k <= sig.inputs@.len(),
                                forall|j: int|
                                    0 <= j < k ==> fn_arg_supported(#[trigger] sig.inputs@[j]),
                            decreases sig.inputs@.len() - k,
                        {
                            let ok = match &sig.inputs[k] {
                                FnArgAst::Typed(pat, ty) => {
                                    match pat {
                                        PatAst::Ident(_) => is_resolvable(ty),
                                        PatAst::Other => false,
                                    }
                                },
                                FnArgAst::Receiver => false,
                            };
                            if !ok {
                                assert(!fn_arg_supported(sig.inputs@[k as int]));
                                assert(!trait_item_supported(t.items@[i as int]));
                                return false;
                            }
                            k = k + 1;
                        }
                    },
                    TraitItemAst::Other => {
                        assert(!trait_item_supported(t.items@[i as int]));
                        return false;
                    },
                }
                i = i + 1;
            }
            true
        },
        ItemAst::Enum(e) => {
            if e.ident.as_str().is_empty() {
                return false;
            }
            let mut i: usize = 0;
            while i < e.variants.len()
                invariant
                    i <= e.variants@.len(),
                    forall|j: int| 0 <= j < i ==> variant_supported(#[trigger] e.variants@[j]),
                decreases e.variants@.len() - i,
            {
                let v = &e.variants[i];
                let ok = !v.ident.as_str().is_empty() && match &v.fields {
                    FieldsAst::Named(fs) => fields_are_resolvable(fs),
                    FieldsAst::Unnamed(fs) => fields_are_resolvable(fs),
                    FieldsAst::Unit => true,
                };
                if !ok {
                    assert(!variant_supported(e.variants@[i as int]));
                    return false;
                }
                i = i + 1;
            }
            true
        },
        ItemAst::Type(a) => !a.ident.as_str().is_empty() && is_resolvable(&a.ty),
        ItemAst::Other => false,
    }
}

/// Decides [`module_supported`].
pub fn module_is_supported(module: &ModuleAst) -> (r: bool)
    ensures
        r == module_supported(*module),
{
    match &module.items {
        None => false,
        Some(items) => {
            let mut i: usize = 0;
            while i < items.len()
                invariant
                    module.items == Some(*items),
                    i <= items@.len(),
                    forall|j: int| 0 <= j < i ==> item_supported(#[trigger] items@[j]),
                decreases items@.len() - i,
            {
                if !item_is_supported(&items[i]) {
                    assert(module.items->Some_0@ == items@);
                    assert(!item_supported(module.items->Some_0@[i as int]));
                    return false;
                }
                i = i + 1;
            }
            assert(module.items->Some_0@ == items@);
            true
        },
    }
}

/// [`witfile_content`] for a module the generator accepts, `None` for one on
/// which it would panic.
pub fn try_witfile_content(module: &ModuleAst) -> (r: Option<String>)
    ensures
        r is Some <==> module_supported(*module),
        r matches Some(s) ==> s@ == witfile_text(*module),
{
    if module_is_supported(module) {
        Some(witfile_content(module))
    } else {
        None
    }
}

// ---------------------------------------------------------------------------
// Laws
// ---------------------------------------------------------------------------

/// A path whose last segment is `name<args>`.
pub open spec fn path_with_last(prefix: Seq<PathSegmentAst>, last: PathSegmentAst, t: TypeAst) -> bool {
    t matches TypeAst::Path { qself, segments } && segments@ == prefix.push(last)
}

/// `Box<T>` is written as `T` is.
pub proof fn law_box_is_transparent(
    prefix: Seq<PathSegmentAst>,
    last: PathSegmentAst,
    t: TypeAst,
    inner: TypeAst,
)
    requires
        path_with_last(prefix, last, t),
        last.ident@ == "Box"@,
        last.arguments matches PathArgumentsAst::AngleBracketed(args) && args@.len() > 0
            && args@[0] == GenericArgumentAst::Type(inner),
    ensures
        resolve_text(t) == resolve_text(inner),
{
    let segments = t->segments@;
    assert(segments.last() == last);
    assert(segment_text(last) == arg_text(GenericArgumentAst::Type(inner)));
    assert(resolve_text(t) == segment_text(last));
}

/// `Vec<T>` and the slice `[T]` are both written as `list<..>` of `T`.
pub proof fn law_vec_and_slice_agree(
    prefix: Seq<PathSegmentAst>,
    last: PathSegmentAst,
    t: TypeAst,
    elem: Box<TypeAst>,
)
    requires
        path_with_last(prefix, last, t),
        last.ident@ == "Vec"@,
        last.arguments matches PathArgumentsAst::AngleBracketed(args) && args@.len() > 0
            && args@[0] == GenericArgumentAst::Type(*elem),
    ensures
        resolve_text(t) == resolve_text(TypeAst::Slice(elem)),
{
    reveal_strlit("Vec");
    reveal_strlit("Box");
    let segments = t->segments@;
    assert(segments.last() == last);
    assert(last.ident@[0] == 'V');
    assert(segment_text(last) == "list<"@ + arg_text(GenericArgumentAst::Type(*elem)) + ">"@);
    assert(resolve_text(t) == segment_text(last));
}

/// The file text starts with `package ` and ends with `}`: trimming
/// surrounding whitespace leaves it unchanged.
pub proof fn law_witfile_is_trimmed(m: ModuleAst)
    ensures
        witfile_text(m).len() > 8,
        witfile_text(m).take(8) == "package "@,
        witfile_text(m).last() == '}',
{
    reveal_strlit("package ");
    reveal_strlit("\n}\n\nworld golem-service {\n    export api\n}");
    let t = witfile_text(m);
    let rest = package_name(m) + "\n\ninterface api {\n"@ + join(
        m.items->Some_0@.map_values(|i: ItemAst| item_text(i)),
        "\n"@,
    );
    let tail = "\n}\n\nworld golem-service {\n    export api\n}"@;
    assert(t =~= "package "@ + rest + tail);
    assert(t.take(8) =~= "package "@);
}

/// Field, function and parameter names in the WIT file hold no `_`: each one
/// became `-`.
pub proof fn law_lower_kebab_has_no_underscore(s: Seq<char>)
    ensures
        forall|i: int| 0 <= i < lower_kebab(s).len() ==> #[trigger] lower_kebab(s)[i] != '_',
        lower_kebab(s).len() == lower_text(s).len(),
{
}

/// The package name holds no `_`: each one became `:`.
pub proof fn law_package_name_has_no_underscore(m: ModuleAst)
    ensures
        forall|i: int| 0 <= i < package_name(m).len() ==> #[trigger] package_name(m)[i] != '_',
{
}

/// Each Rust integer type is named by the WIT integer of the same signedness
/// and the same width: `iN` becomes `sN` and `uN` stays `uN`, for every width
/// `N` of 8, 16, 32 and 64 bits. A 32-bit Rust integer never becomes a 64-bit
/// WIT one, nor a signed one an unsigned one.
pub proof fn law_integer_names_keep_sign_and_width(w: Seq<char>)
    requires
        w == "8"@ || w == "16"@ || w == "32"@ || w == "64"@,
    ensures
        wit_type_name(seq!['i'] + w) == seq!['s'] + w,
        wit_type_name(seq!['u'] + w) == seq!['u'] + w,
{
    reveal_strlit("bool");
    reveal_strlit("i8");
    reveal_strlit("i16");
    reveal_strlit("i32");
    reveal_strlit("i64");
    reveal_strlit("isize");
    reveal_strlit("u8");
    reveal_strlit("u16");
    reveal_strlit("u32");
    reveal_strlit("u64");
    reveal_strlit("usize");
    reveal_strlit("f32");
    reveal_strlit("f64");
    reveal_strlit("String");
    reveal_strlit("char");
    reveal_strlit("s8");
    reveal_strlit("s16");
    reveal_strlit("s32");
    reveal_strlit("s64");
    reveal_strlit("float32");
    reveal_strlit("float64");
    reveal_strlit("string");
    reveal_strlit("8");
    reveal_strlit("16");
    reveal_strlit("32");
    reveal_strlit("64");
    assert("bool"@[0] == 'b' && "bool"@[1] == 'o');
    assert("i8"@[0] == 'i' && "i8"@[1] == '8');
    assert("i16"@[0] == 'i' && "i16"@[1] == '1');
    assert("i32"@[0] == 'i' && "i32"@[1] == '3');
    assert("i64"@[0] == 'i' && "i64"@[1] == '6');
    assert("isize"@[0] == 'i' && "isize"@[1] == 's');
    assert("u8"@[0] == 'u' && "u8"@[1] == '8');
    assert("u16"@[0] == 'u' && "u16"@[1] == '1');
    assert("u32"@[0] == 'u' && "u32"@[1] == '3');
    assert("u64"@[0] == 'u' && "u64"@[1] == '6');
    assert("usize"@[0] == 'u' && "usize"@[1] == 's');
    assert("f32"@[0] == 'f' && "f32"@[1] == '3');
    assert("f64"@[0] == 'f' && "f64"@[1] == '6');
    assert("String"@[0] == 'S' && "String"@[1] == 't');
    assert("char"@[0] == 'c' && "char"@[1] == 'h');
    assert("s8"@[0] == 's' && "s8"@[1] == '8');
    assert("s16"@[0] == 's' && "s16"@[1] == '1');
    assert("s32"@[0] == 's' && "s32"@[1] == '3');
    assert("s64"@[0] == 's' && "s64"@[1] == '6');
    assert("float32"@[0] == 'f' && "float32"@[1] == 'l');
    assert("float64"@[0] == 'f' && "float64"@[1] == 'l');
    assert("string"@[0] == 's' && "string"@[1] == 't');
    assert("16"@[0] == '1' && "16"@[1] == '6');
    assert("32"@[0] == '3' && "32"@[1] == '2');
    assert("64"@[0] == '6' && "64"@[1] == '4');
    assert("bool"@[2] == 'o');
    assert("i16"@[2] == '6');
    assert("i32"@[2] == '2');
    assert("i64"@[2] == '4');
    assert("isize"@[2] == 'i');
    assert("u16"@[2] == '6');
    assert("u32"@[2] == '2');
    assert("u64"@[2] == '4');
    assert("usize"@[2] == 'i');
    assert("f32"@[2] == '2');
    assert("f64"@[2] == '4');
    assert("String"@[2] == 'r');
    assert("char"@[2] == 'a');
    assert("s16"@[2] == '6');
    assert("s32"@[2] == '2');
    assert("s64"@[2] == '4');
    assert("float32"@[2] == 'o');
    assert("float64"@[2] == 'o');
    assert("string"@[2] == 'r');
    assert(seq!['i'] + "8"@ =~= "i8"@);
    assert(seq!['i'] + "16"@ =~= "i16"@);
    assert(seq!['i'] + "32"@ =~= "i32"@);
    assert(seq!['i'] + "64"@ =~= "i64"@);
    assert(seq!['u'] + "8"@ =~= "u8"@);
    assert(seq!['u'] + "16"@ =~= "u16"@);
    assert(seq!['u'] + "32"@ =~= "u32"@);
    assert(seq!['u'] + "64"@ =~= "u64"@);
    assert(seq!['s'] + "8"@ =~= "s8"@);
    assert(seq!['s'] + "16"@ =~= "s16"@);
    assert(seq!['s'] + "32"@ =~= "s32"@);
    assert(seq!['s'] + "64"@ =~= "s64"@);
}

/// Pointer-sized integers are named as the 64-bit integer of their signedness.
pub proof fn law_pointer_sized_names_are_64_bit()
    ensures
        wit_type_name("isize"@) == wit_type_name("i64"@),
        wit_type_name("usize"@) == wit_type_name("u64"@),
{
    reveal_strlit("bool");
    reveal_strlit("i8");
    reveal_strlit("i16");
    reveal_strlit("i32");
    reveal_strlit("i64");
    reveal_strlit("isize");
    reveal_strlit("u8");
    reveal_strlit("u16");
    reveal_strlit("u32");
    reveal_strlit("u64");
    reveal_strlit("usize");
    reveal_strlit("f32");
    reveal_strlit("f64");
    reveal_strlit("String");
    reveal_strlit("char");
    reveal_strlit("s8");
    reveal_strlit("s16");
    reveal_strlit("s32");
    reveal_strlit("s64");
    reveal_strlit("float32");
    reveal_strlit("float64");
    reveal_strlit("string");
    reveal_strlit("8");
    reveal_strlit("16");
    reveal_strlit("32");
    reveal_strlit("64");
    assert("bool"@[0] == 'b' && "bool"@[1] == 'o');
    assert("i8"@[0] == 'i' && "i8"@[1] == '8');
    assert("i16"@[0] == 'i' && "i16"@[1] == '1');
    assert("i32"@[0] == 'i' && "i32"@[1] == '3');
    assert("i64"@[0] == 'i' && "i64"@[1] == '6');
    assert("isize"@[0] == 'i' && "isize"@[1] == 's');
    assert("u8"@[0] == 'u' && "u8"@[1] == '8');
    assert("u16"@[0] == 'u' && "u16"@[1] == '1');
    assert("u32"@[0] == 'u' && "u32"@[1] == '3');
    assert("u64"@[0] == 'u' && "u64"@[1] == '6');
    assert("usize"@[0] == 'u' && "usize"@[1] == 's');
    assert("f32"@[0] == 'f' && "f32"@[1] == '3');
    assert("f64"@[0] == 'f' && "f64"@[1] == '6');
    assert("String"@[0] == 'S' && "String"@[1] == 't');
    assert("char"@[0] == 'c' && "char"@[1] == 'h');
    assert("s8"@[0] == 's' && "s8"@[1] == '8');
    assert("s16"@[0] == 's' && "s16"@[1] == '1');
    assert("s32"@[0] == 's' && "s32"@[1] == '3');
    assert("s64"@[0] == 's' && "s64"@[1] == '6');
    assert("float32"@[0] == 'f' && "float32"@[1] == 'l');
    assert("float64"@[0] == 'f' && "float64"@[1] == 'l');
    assert("string"@[0] == 's' && "string"@[1] == 't');
    assert("16"@[0] == '1' && "16"@[1] == '6');
    assert("32"@[0] == '3' && "32"@[1] == '2');
    assert("64"@[0] == '6' && "64"@[1] == '4');
    assert("bool"@[2] == 'o');
    assert("i16"@[2] == '6');
    assert("i32"@[2] == '2');
    assert("i64"@[2] == '4');
    assert("isize"@[2] == 'i');
    assert("u16"@[2] == '6');
    assert("u32"@[2] == '2');
    assert("u64"@[2] == '4');
    assert("usize"@[2] == 'i');
    assert("f32"@[2] == '2');
    assert("f64"@[2] == '4');
    assert("String"@[2] == 'r');
    assert("char"@[2] == 'a');
    assert("s16"@[2] == '6');
    assert("s32"@[2] == '2');
    assert("s64"@[2] == '4');
    assert("float32"@[2] == 'o');
    assert("float64"@[2] == 'o');
    assert("string"@[2] == 'r');
}

/// The metadata of each primitive Rust type is a WIT primitive, and the
/// serializer writes that primitive exactly as the WIT file generator names
/// the Rust type: the two paths from a Rust type to its WIT text agree.
pub proof fn law_primitive_metadata_agrees_with_wit_names(m: WitMeta)
    ensures
        <i8 as HasWitMeta>::describes(m) ==> (m matches WitMeta::Primitive(p) && primitive_text(p)
            == wit_type_name("i8"@)),
        <i16 as HasWitMeta>::describes(m) ==> (m matches WitMeta::Primitive(p) && primitive_text(p)
            == wit_type_name("i16"@)),
        <i32 as HasWitMeta>::describes(m) ==> (m matches WitMeta::Primitive(p) && primitive_text(p)
            == wit_type_name("i32"@)),
        <i64 as HasWitMeta>::describes(m) ==> (m matches WitMeta::Primitive(p) && primitive_text(p)
            == wit_type_name("i64"@)),
        <isize as HasWitMeta>::describes(m) ==> (m matches WitMeta::Primitive(p) && primitive_text(p)
            == wit_type_name("isize"@)),
        <u8 as HasWitMeta>::describes(m) ==> (m matches WitMeta::Primitive(p) && primitive_text(p)
            == wit_type_name("u8"@)),
        <u16 as HasWitMeta>::describes(m) ==> (m matches WitMeta::Primitive(p) && primitive_text(p)
            == wit_type_name("u16"@)),
        <u32 as HasWitMeta>::describes(m) ==> (m matches WitMeta::Primitive(p) && primitive_text(p)
            == wit_type_name("u32"@)),
        <u64 as HasWitMeta>::describes(m) ==> (m matches WitMeta::Primitive(p) && primitive_text(p)
            == wit_type_name("u64"@)),
        <usize as HasWitMeta>::describes(m) ==> (m matches WitMeta::Primitive(p) && primitive_text(p)
            == wit_type_name("usize"@)),
        <bool as HasWitMeta>::describes(m) ==> (m matches WitMeta::Primitive(p) && primitive_text(p)
            == wit_type_name("bool"@)),
        <char as HasWitMeta>::describes(m) ==> (m matches WitMeta::Primitive(p) && primitive_text(p)
            == wit_type_name("char"@)),
        <String as HasWitMeta>::describes(m) ==> (m matches WitMeta::Primitive(p) && primitive_text(
            p,
        ) == wit_type_name("String"@)),
{
    reveal_strlit("bool");
    reveal_strlit("i8");
    reveal_strlit("i16");
    reveal_strlit("i32");
    reveal_strlit("i64");
    reveal_strlit("isize");
    reveal_strlit("u8");
    reveal_strlit("u16");
    reveal_strlit("u32");
    reveal_strlit("u64");
    reveal_strlit("usize");
    reveal_strlit("f32");
    reveal_strlit("f64");
    reveal_strlit("String");
    reveal_strlit("char");
    reveal_strlit("s8");
    reveal_strlit("s16");
    reveal_strlit("s32");
    reveal_strlit("s64");
    reveal_strlit("float32");
    reveal_strlit("float64");
    reveal_strlit("string");
    reveal_strlit("8");
    reveal_strlit("16");
    reveal_strlit("32");
    reveal_strlit("64");
    assert("bool"@[0] == 'b' && "bool"@[1] == 'o');
    assert("i8"@[0] == 'i' && "i8"@[1] == '8');
    assert("i16"@[0] == 'i' && "i16"@[1] == '1');
    assert("i32"@[0] == 'i' && "i32"@[1] == '3');
    assert("i64"@[0] == 'i' && "i64"@[1] == '6');
    assert("isize"@[0] == 'i' && "isize"@[1] == 's');
    assert("u8"@[0] == 'u' && "u8"@[1] == '8');
    assert("u16"@[0] == 'u' && "u16"@[1] == '1');
    assert("u32"@[0] == 'u' && "u32"@[1] == '3');
    assert("u64"@[0] == 'u' && "u64"@[1] == '6');
    assert("usize"@[0] == 'u' && "usize"@[1] == 's');
    assert("f32"@[0] == 'f' && "f32"@[1] == '3');
    assert("f64"@[0] == 'f' && "f64"@[1] == '6');
    assert("String"@[0] == 'S' && "String"@[1] == 't');
    assert("char"@[0] == 'c' && "char"@[1] == 'h');
    assert("s8"@[0] == 's' && "s8"@[1] == '8');
    assert("s16"@[0] == 's' && "s16"@[1] == '1');
    assert("s32"@[0] == 's' && "s32"@[1] == '3');
    assert("s64"@[0] == 's' && "s64"@[1] == '6');
    assert("float32"@[0] == 'f' && "float32"@[1] == 'l');
    assert("float64"@[0] == 'f' && "float64"@[1] == 'l');
    assert("string"@[0] == 's' && "string"@[1] == 't');
    assert("16"@[0] == '1' && "16"@[1] == '6');
    assert("32"@[0] == '3' && "32"@[1] == '2');
    assert("64"@[0] == '6' && "64"@[1] == '4');
    assert("bool"@[2] == 'o');
    assert("i16"@[2] == '6');
    assert("i32"@[2] == '2');
    assert("i64"@[2] == '4');
    assert("isize"@[2] == 'i');
    assert("u16"@[2] == '6');
    assert("u32"@[2] == '2');
    assert("u64"@[2] == '4');
    assert("usize"@[2] == 'i');
    assert("f32"@[2] == '2');
    assert("f64"@[2] == '4');
    assert("String"@[2] == 'r');
    assert("char"@[2] == 'a');
    assert("s16"@[2] == '6');
    assert("s32"@[2] == '2');
    assert("s64"@[2] == '4');
    assert("float32"@[2] == 'o');
    assert("float64"@[2] == 'o');
    assert("string"@[2] == 'r');
}

/// A slice of `T` is written as the list that the serializer writes for the
/// metadata of `T`: where the two agree on `T`, they agree on `[T]`.
pub proof fn law_slice_agrees_with_serializer(elem: Box<TypeAst>, m: WitMeta)
    requires
        resolve_text(*elem) == wit_ref_text(m),
    ensures
        resolve_text(TypeAst::Slice(elem)) == wit_ref_text(WitMeta::List(Box::new(m))),
{
}

/// `Vec<T>` and `Option<T>` are written as the list and the option that the
/// serializer writes for the metadata of `T`: where the two agree on `T`, they
/// agree on `Vec<T>` and `Option<T>`.
pub proof fn law_vec_and_option_agree_with_serializer(
    prefix: Seq<PathSegmentAst>,
    last: PathSegmentAst,
    t: TypeAst,
    elem: TypeAst,
    m: WitMeta,
)
    requires
        path_with_last(prefix, last, t),
        last.ident@ == "Vec"@ || last.ident@ == "Option"@,
        last.arguments matches PathArgumentsAst::AngleBracketed(args) && args@.len() > 0
            && args@[0] == GenericArgumentAst::Type(elem),
        resolve_text(elem) == wit_ref_text(m),
    ensures
        last.ident@ == "Vec"@ ==> resolve_text(t) == wit_ref_text(WitMeta::List(Box::new(m))),
        last.ident@ == "Option"@ ==> resolve_text(t) == wit_ref_text(
            WitMeta::Option(Box::new(m)),
        ),
{
    reveal_strlit("Vec");
    reveal_strlit("Box");
    reveal_strlit("Option");
    reveal_strlit("Result");
    let segments = t->segments@;
    assert(segments.last() == last);
    assert(last.ident@[0] == "Vec"@[0] || last.ident@[0] == "Option"@[0]);
    assert(resolve_text(t) == segment_text(last));
}

/// `Result<T, E>` is written as the result that the serializer writes for the
/// metadata of `T` and `E`: where the two agree on `T` and on `E`, they agree
/// on `Result<T, E>`.
pub proof fn law_result_agrees_with_serializer(
    prefix: Seq<PathSegmentAst>,
    last: PathSegmentAst,
    t: TypeAst,
    ok: TypeAst,
    err: TypeAst,
    mo: WitMeta,
    me: WitMeta,
)
    requires
        path_with_last(prefix, last, t),
        last.ident@ == "Result"@,
        last.arguments matches PathArgumentsAst::AngleBracketed(args) && args@ == seq![
            GenericArgumentAst::Type(ok),
            GenericArgumentAst::Type(err),
        ],
        resolve_text(ok) == wit_ref_text(mo),
        resolve_text(err) == wit_ref_text(me),
    ensures
        resolve_text(t) == wit_ref_text(
            WitMeta::Result(ResultMeta { ok: Box::new(mo), err: Box::new(me) }),
        ),
{
    reveal_strlit("Vec");
    reveal_strlit("Box");
    reveal_strlit("Option");
    reveal_strlit("Result");
    let segments = t->segments@;
    assert(segments.last() == last);
    assert(last.ident@[0] == 'R');
    let args = last.arguments->AngleBracketed_0@;
    assert(args.drop_last() =~= seq![GenericArgumentAst::Type(ok)]);
    assert(args.last() == GenericArgumentAst::Type(err));
    assert(seq![GenericArgumentAst::Type(ok)][0] == GenericArgumentAst::Type(ok));
    assert(arg_text(GenericArgumentAst::Type(ok)) == resolve_text(ok));
    assert(arg_text(GenericArgumentAst::Type(err)) == resolve_text(err));
    assert(seq![GenericArgumentAst::Type(ok)].len() == 1);
    assert(args_text(seq![GenericArgumentAst::Type(ok)]) == resolve_text(ok));
    assert(args_text(args) == resolve_text(ok) + ", "@ + resolve_text(err));
    assert(resolve_text(t) == segment_text(last));
}

/// A pair is written as the tuple that the serializer writes for the metadata
/// of its two items: where the two agree on each item, they agree on the pair.
pub proof fn law_pair_agrees_with_serializer(t: TypeAst, m: WitMeta, a: TypeAst, b: TypeAst, ma: WitMeta, mb: WitMeta)
    requires
        t is Tuple,
        t->Tuple_0@ == seq![a, b],
        m is Tuple,
        m->Tuple_0.items@ == seq![ma, mb],
        resolve_text(a) == wit_ref_text(ma),
        resolve_text(b) == wit_ref_text(mb),
    ensures
        resolve_text(t) == wit_ref_text(m),
{
    reveal_strlit(", ");
    let ts = t->Tuple_0@;
    let ms = m->Tuple_0.items@;
    assert(ts.drop_last() =~= seq![a]);
    assert(ms.drop_last() =~= seq![ma]);
    assert(ts.last() == b && ms.last() == mb);
    assert(seq![a][0] == a && seq![ma][0] == ma);
    assert(types_text(seq![a]) == resolve_text(a));
    assert(refs_text(seq![ma]) == wit_ref_text(ma));
    assert(types_text(ts) == resolve_text(a) + ", "@ + resolve_text(b));
    assert(refs_text(ms) == wit_ref_text(ma) + ", "@ + wit_ref_text(mb));
    assert((resolve_text(a) + ", "@ + resolve_text(b)).len() > 0);
}

proof fn lemma_join_nonempty(parts: Seq<Seq<char>>, sep: Seq<char>)
    requires
        parts.len() > 0,
    ensures
        join(parts, sep).len() >= parts[0].len(),
    decreases parts.len(),
{
    if parts.len() > 1 {
        lemma_join_nonempty(parts.drop_last(), sep);
    }
}

/// A path type without generic arguments is written as the WIT name of its
/// last segment (`std::primitive::i32` as `s32`).
pub proof fn law_plain_path_is_written_by_name(prefix: Seq<PathSegmentAst>, last: PathSegmentAst, t: TypeAst)
    requires
        path_with_last(prefix, last, t),
        !(last.arguments is AngleBracketed),
    ensures
        resolve_text(t) == wit_type_name(last.ident@),
{
    assert(t->segments@.last() == last);
    assert(t->segments@.len() > 0);
    assert(resolve_text(t) == segment_text(last));
}

/// A struct with fields is written as a record with a `name: type` line for
/// every field, in order, and nothing else: the name in lower kebab case, the
/// type as its WIT text.
pub proof fn law_record_in_file_lists_every_field(st: StructAst)
    requires
        st.fields@.len() > 0,
    ensures
        struct_text(st) == "\n    record "@ + pascal_to_kebab(st.ident@) + " {\n        "@ + join(
            Seq::new(
                st.fields@.len(),
                |i: int| lower_kebab(st.fields@[i].ident->Some_0@) + ": "@ + resolve_text(st.fields@[i].ty),
            ),
            ", \n\t\t"@,
        ) + ",\n    }"@,
{
    let lines = Seq::new(
        st.fields@.len(),
        |i: int| lower_kebab(st.fields@[i].ident->Some_0@) + ": "@ + resolve_text(st.fields@[i].ty),
    );
    assert(st.fields@.map_values(|f: FieldAst| field_line(f)) =~= lines);
    assert(lines[0].len() >= 2) by {
        reveal_strlit(": ");
    }
    lemma_join_nonempty(lines, ", \n\t\t"@);
}

} // verus!
