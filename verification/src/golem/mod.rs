//! The code the `golem` attribute and derives emit: for each type, an impl of
//! `HasWitMetadata` giving its WIT shape, and an entry in the registry of all
//! WIT types. The code is produced as Rust source text.

use vstd::prelude::*;
use vstd::string::StringExecFns;

use crate::syntax::{FnArgAst, GenericArgumentAst, PatAst, PathArgumentsAst, PathSegmentAst, SignatureAst, TypeAst};
use crate::text::{ascii_uppercase, join, join_strings, string_of, to_ascii_uppercase, views};

pub mod enumeration;
pub mod structure;
pub mod variant;

verus! {

broadcast use vstd::string::group_string_axioms;

/// Why no code could be produced.
#[derive(Debug, PartialEq, Eq, Structural)]
pub enum CodegenError {
    /// A generic argument that is not a type (a lifetime, a constant, ...).
    UnsupportedGenericArgument,
    /// A reference type: all data must be owned.
    ReferenceNotAllowed,
    /// A type other than a plain path or a tuple.
    UnsupportedType,
    /// A function without a written return type.
    MissingReturnType,
    /// A function taking `self`.
    ReceiverArgument,
    /// A parameter bound by a pattern other than a plain name.
    UnexpectedPattern,
}

impl CodegenError {
    pub open spec fn spec_message(&self) -> Seq<char> {
        match self {
            CodegenError::UnsupportedGenericArgument => "Unsupported generic argument"@,
            CodegenError::ReferenceNotAllowed => "Unsupported type: References are not allowed. All data must be owned"@,
            CodegenError::UnsupportedType => "Unsupported type"@,
            CodegenError::MissingReturnType => "Function needs to have explicit return type"@,
            CodegenError::ReceiverArgument => "Function needs to have explicit return type"@,
            CodegenError::UnexpectedPattern => "Unexpected pattern"@,
        }
    }

    /// The message reported for the error. (For a generic argument the
    /// reporter adds the argument itself.)
    pub fn message(&self) -> (r: &'static str)
        ensures
            r@ == self.spec_message(),
    {
        match self {
            CodegenError::UnsupportedGenericArgument => "Unsupported generic argument",
            CodegenError::ReferenceNotAllowed => "Unsupported type: References are not allowed. All data must be owned",
            CodegenError::UnsupportedType => "Unsupported type",
            CodegenError::MissingReturnType => "Function needs to have explicit return type",
            CodegenError::ReceiverArgument => "Function needs to have explicit return type",
            CodegenError::UnexpectedPattern => "Unexpected pattern",
        }
    }
}

// ---------------------------------------------------------------------------
// Paths in a type are never empty
// ---------------------------------------------------------------------------

/// Every path in the type has at least one segment, as every parsed path does.
pub open spec fn type_wf(t: TypeAst) -> bool
    decreases t,
{
    match t {
        TypeAst::Path { qself, segments } => segments@.len() > 0 && segment_wf(segments@.last()),
        TypeAst::Tuple(elems) => types_wf(elems@),
        TypeAst::Slice(elem) => type_wf(*elem),
        TypeAst::Reference(elem) => type_wf(*elem),
        TypeAst::Other => true,
    }
}

pub open spec fn segment_wf(seg: PathSegmentAst) -> bool
    decreases seg,
{
    match seg.arguments {
        PathArgumentsAst::AngleBracketed(args) => args_wf(args@),
        _ => true,
    }
}

pub open spec fn arg_wf(a: GenericArgumentAst) -> bool
    decreases a,
{
    match a {
        GenericArgumentAst::Type(t) => type_wf(t),
        GenericArgumentAst::Other => true,
    }
}

pub open spec fn args_wf(args: Seq<GenericArgumentAst>) -> bool
    decreases args,
{
    if args.len() == 0 {
        true
    } else {
        args_wf(args.drop_last()) && arg_wf(args.last())
    }
}

pub open spec fn types_wf(ts: Seq<TypeAst>) -> bool
    decreases ts,
{
    if ts.len() == 0 {
        true
    } else {
        types_wf(ts.drop_last()) && type_wf(ts.last())
    }
}

// ---------------------------------------------------------------------------
// The expression naming a type's WIT metadata
// ---------------------------------------------------------------------------

/// The segments' identifiers joined by `::`.
pub open spec fn path_text(segs: Seq<PathSegmentAst>) -> Seq<char> {
    join(segs.map_values(|s: PathSegmentAst| s.ident@), "::"@)
}

pub open spec fn root_suffix(is_root: bool) -> Seq<char> {
    if is_root {
        "::WIT"@
    } else {
        Seq::empty()
    }
}

/// The type written so that `::WIT` can follow it: generic arguments in
/// turbofish form (`Option::<String>`), tuples in parentheses. At the root the
/// text ends in `::WIT`. References, qualified paths and other kinds of types
/// are refused, as are generic arguments that are not types; the first
/// refusal, left to right, is the one returned.
pub open spec fn type_const(t: TypeAst, is_root: bool) -> Result<Seq<char>, CodegenError>
    decreases t,
{
    match t {
        TypeAst::Path { qself, segments } => if qself {
            Err(CodegenError::UnsupportedType)
        } else if segments@.len() == 0 {
            Ok(Seq::empty())
        } else {
            segment_const(path_text(segments@), segments@.last(), is_root)
        },
        TypeAst::Tuple(elems) => match types_consts(elems@) {
            Err(e) => Err(e),
            Ok(v) => Ok("("@ + join(v, ", "@) + ")"@ + root_suffix(is_root)),
        },
        TypeAst::Reference(_) => Err(CodegenError::ReferenceNotAllowed),
        TypeAst::Slice(_) => Err(CodegenError::UnsupportedType),
        TypeAst::Other => Err(CodegenError::UnsupportedType),
    }
}

/// A path `p` whose last segment is `seg`.
pub open spec fn segment_const(p: Seq<char>, seg: PathSegmentAst, is_root: bool) -> Result<
    Seq<char>,
    CodegenError,
>
    decreases seg,
{
    match seg.arguments {
        PathArgumentsAst::AngleBracketed(args) => match args_consts(args@) {
            Err(e) => Err(e),
            Ok(v) => Ok(p + "::<"@ + join(v, ", "@) + ">"@ + root_suffix(is_root)),
        },
        _ => Ok(p + root_suffix(is_root)),
    }
}

pub open spec fn arg_const(a: GenericArgumentAst) -> Result<Seq<char>, CodegenError>
    decreases a,
{
    match a {
        GenericArgumentAst::Type(t) => type_const(t, false),
        GenericArgumentAst::Other => Err(CodegenError::UnsupportedGenericArgument),
    }
}

pub open spec fn args_consts(args: Seq<GenericArgumentAst>) -> Result<Seq<Seq<char>>, CodegenError>
    decreases args,
{
    if args.len() == 0 {
        Ok(Seq::empty())
    } else {
        match args_consts(args.drop_last()) {
            Err(e) => Err(e),
            Ok(v) => match arg_const(args.last()) {
                Err(e) => Err(e),
                Ok(x) => Ok(v.push(x)),
            },
        }
    }
}

pub open spec fn types_consts(ts: Seq<TypeAst>) -> Result<Seq<Seq<char>>, CodegenError>
    decreases ts,
{
    if ts.len() == 0 {
        Ok(Seq::empty())
    } else {
        match types_consts(ts.drop_last()) {
            Err(e) => Err(e),
            Ok(v) => match type_const(ts.last(), false) {
                Err(e) => Err(e),
                Ok(x) => Ok(v.push(x)),
            },
        }
    }
}

proof fn lemma_types_wf_index(ts: Seq<TypeAst>, i: int)
    requires
        types_wf(ts),
        0 <= i < ts.len(),
    ensures
        type_wf(ts[i]),
    decreases ts.len(),
{
    if i < ts.len() - 1 {
        lemma_types_wf_index(ts.drop_last(), i);
    }
}

proof fn lemma_args_wf_index(xs: Seq<GenericArgumentAst>, i: int)
    requires
        args_wf(xs),
        0 <= i < xs.len(),
    ensures
        arg_wf(xs[i]),
    decreases xs.len(),
{
    if i < xs.len() - 1 {
        lemma_args_wf_index(xs.drop_last(), i);
    }
}

/// The segments' identifiers joined by `::`.
fn path_string(segments: &Vec<PathSegmentAst>) -> (r: String)
    ensures
        r@ == path_text(segments@),
{
    let mut parts: Vec<String> = Vec::new();
    let mut i: usize = 0;
    while i < segments.len()
        invariant
            i <= segments@.len(),
            parts@.len() == i,
            forall|j: int| 0 <= j < i ==> (#[trigger] parts@[j])@ == segments@[j].ident@,
        decreases segments@.len() - i,
    {
        parts.push(string_of(segments[i].ident.as_str()));
        i = i + 1;
    }
    assert(views(parts@) =~= segments@.map_values(|s: PathSegmentAst| s.ident@));
    join_strings(&parts, "::")
}

fn go(ty: &TypeAst, is_root: bool) -> (r: Result<String, CodegenError>)
    requires
        type_wf(*ty),
    ensures
        match (r, type_const(*ty, is_root)) {
            (Ok(s), Ok(t)) => s@ == t,
            (Err(e), Err(f)) => e == f,
            _ => false,
        },
    decreases *ty, 2nat,
{
    match ty {
        TypeAst::Path { qself, segments } => {
            if *qself {
                return Err(CodegenError::UnsupportedType);
            }
            let path = path_string(segments);
            let seg = &segments[segments.len() - 1];
            assert(decreases_to!(*ty => ty->segments));
            assert(decreases_to!(ty->segments => ty->segments@));
            assert(decreases_to!(ty->segments@ => ty->segments@[segments@.len() - 1]));
            match &seg.arguments {
                PathArgumentsAst::AngleBracketed(args) => {
                    assert(decreases_to!(*seg => seg.arguments));
                    assert(decreases_to!(seg.arguments => seg.arguments->AngleBracketed_0));
                    assert(decreases_to!(seg.arguments->AngleBracketed_0 => seg.arguments->AngleBracketed_0@));
                    let ghost xs = args@;
                    assert(segments@.last() == *seg);
                    assert(segment_wf(*seg));
                    assert(type_const(*ty, is_root) == segment_const(path_text(segments@), *seg, is_root));
                    let mut parts: Vec<String> = Vec::new();
                    let mut i: usize = 0;
                    while i < args.len()
                        invariant
                            i <= xs.len(),
                            xs == args@,
                            args_wf(xs),
                            type_const(*ty, is_root) == segment_const(path_text(segments@), *seg, is_root),
                            decreases_to!(*ty => *seg),
                            seg.arguments == PathArgumentsAst::AngleBracketed(*args),
                            args_consts(xs.take(i as int)) matches Ok(v) && views(parts@) == v,
                        decreases xs.len() - i,
                    {
                        proof {
                            lemma_args_wf_index(xs, i as int);
                        }
                        assert(xs.take(i + 1).drop_last() =~= xs.take(i as int));
                        assert(xs.take(i + 1).last() == xs[i as int]);
                        assert(decreases_to!(*seg => seg.arguments));
                        assert(decreases_to!(seg.arguments => seg.arguments->AngleBracketed_0));
                        assert(decreases_to!(seg.arguments->AngleBracketed_0 => seg.arguments->AngleBracketed_0@));
                        assert(decreases_to!(args@ => args@[i as int]));
                        match argument_const(&args[i], ty) {
                            Ok(x) => {
                                let ghost before = views(parts@);
                                parts.push(x);
                                assert(views(parts@) =~= before.push(x@));
                            },
                            Err(e) => {
                                proof {
                                    lemma_args_consts_err_prefix(xs, i as int + 1);
                                }
                                return Err(e);
                            },
                        }
                        i = i + 1;
                    }
                    assert(xs.take(xs.len() as int) =~= xs);
                    let joined = join_strings(&parts, ", ");
                    let mut out = path;
                    out.append("::<");
                    out.append(joined.as_str());
                    out.append(">");
                    if is_root {
                        out.append("::WIT");
                    }
                    Ok(out)
                },
                _ => {
                    let mut out = path;
                    if is_root {
                        out.append("::WIT");
                    }
                    Ok(out)
                },
            }
        },
        TypeAst::Tuple(elems) => {
            let ghost ts = elems@;
            let mut parts: Vec<String> = Vec::new();
            let mut i: usize = 0;
            while i < elems.len()
                invariant
                    i <= ts.len(),
                    ts == elems@,
                    types_wf(ts),
                    *ty == TypeAst::Tuple(*elems),
                    types_consts(ts.take(i as int)) matches Ok(v) && views(parts@) == v,
                decreases ts.len() - i,
            {
                proof {
                    lemma_types_wf_index(ts, i as int);
                }
                assert(ts.take(i + 1).drop_last() =~= ts.take(i as int));
                assert(ts.take(i + 1).last() == ts[i as int]);
                assert(decreases_to!(*ty => ty->Tuple_0));
                assert(decreases_to!(ty->Tuple_0 => ty->Tuple_0@));
                assert(decreases_to!(ty->Tuple_0@ => ty->Tuple_0@[i as int]));
                match go(&elems[i], false) {
                    Ok(x) => {
                        let ghost before = views(parts@);
                        parts.push(x);
                        assert(views(parts@) =~= before.push(x@));
                    },
                    Err(e) => {
                        proof {
                            lemma_types_consts_err_prefix(ts, i as int + 1);
                        }
                        return Err(e);
                    },
                }
                i = i + 1;
            }
            assert(ts.take(ts.len() as int) =~= ts);
            let joined = join_strings(&parts, ", ");
            let mut out = string_of("(");
            out.append(joined.as_str());
            out.append(")");
            if is_root {
                out.append("::WIT");
            }
            Ok(out)
        },
        TypeAst::Reference(_) => Err(CodegenError::ReferenceNotAllowed),
        TypeAst::Slice(_) => Err(CodegenError::UnsupportedType),
        TypeAst::Other => Err(CodegenError::UnsupportedType),
    }
}

fn argument_const(arg: &GenericArgumentAst, ty: &TypeAst) -> (r: Result<String, CodegenError>)
    requires
        arg_wf(*arg),
        decreases_to!(*ty => *arg),
    ensures
        match (r, arg_const(*arg)) {
            (Ok(s), Ok(t)) => s@ == t,
            (Err(e), Err(f)) => e == f,
            _ => false,
        },
    decreases *ty, 1nat,
{
    match arg {
        GenericArgumentAst::Type(t) => {
            assert(decreases_to!(*arg => arg->Type_0));
            go(t, false)
        },
        GenericArgumentAst::Other => Err(CodegenError::UnsupportedGenericArgument),
    }
}

proof fn lemma_args_consts_err_prefix(xs: Seq<GenericArgumentAst>, n: int)
    requires
        0 <= n <= xs.len(),
        args_consts(xs.take(n)) is Err,
    ensures
        args_consts(xs) == args_consts(xs.take(n)),
    decreases xs.len() - n,
{
    if n < xs.len() {
        assert(xs.take(n + 1).drop_last() =~= xs.take(n));
        lemma_args_consts_err_prefix(xs, n + 1);
    } else {
        assert(xs.take(n) =~= xs);
    }
}

proof fn lemma_types_consts_err_prefix(ts: Seq<TypeAst>, n: int)
    requires
        0 <= n <= ts.len(),
        types_consts(ts.take(n)) is Err,
    ensures
        types_consts(ts) == types_consts(ts.take(n)),
    decreases ts.len() - n,
{
    if n < ts.len() {
        assert(ts.take(n + 1).drop_last() =~= ts.take(n));
        lemma_types_consts_err_prefix(ts, n + 1);
    } else {
        assert(ts.take(n) =~= ts);
    }
}

/// The expression of a type's WIT metadata: `Result<A, B>` becomes
/// `Result::<A, B>::WIT`, `(T, U)` becomes `(T, U)::WIT`, and a full path
/// keeps its segments: see [`type_const`].
pub fn make_type_wit_const(ty: &TypeAst) -> (r: Result<String, CodegenError>)
    requires
        type_wf(*ty),
    ensures
        match (r, type_const(*ty, true)) {
            (Ok(s), Ok(t)) => s@ == t,
            (Err(e), Err(f)) => e == f,
            _ => false,
        },
{
    go(ty, true)
}

/// At the root, the expression is the nested form followed by `::WIT`; both
/// forms refuse the same types with the same error.
pub proof fn law_root_const_appends_wit(t: TypeAst)
    requires
        type_wf(t),
    ensures
        match (type_const(t, true), type_const(t, false)) {
            (Ok(a), Ok(b)) => a == b + "::WIT"@,
            (Err(e), Err(f)) => e == f,
            _ => false,
        },
{
    match t {
        TypeAst::Path { qself, segments } => {
            if !qself {
                let p = path_text(segments@);
                let seg = segments@.last();
                match seg.arguments {
                    PathArgumentsAst::AngleBracketed(args) => {
                        if let Ok(v) = args_consts(args@) {
                            assert(p + "::<"@ + join(v, ", "@) + ">"@ + "::WIT"@ == (p + "::<"@ + join(
                                v,
                                ", "@,
                            ) + ">"@ + Seq::<char>::empty()) + "::WIT"@);
                        }
                    },
                    _ => {
                        assert(p + "::WIT"@ == (p + Seq::<char>::empty()) + "::WIT"@);
                    },
                }
            }
        },
        TypeAst::Tuple(elems) => {
            if let Ok(v) = types_consts(elems@) {
                let x = "("@ + join(v, ", "@) + ")"@;
                assert(x + "::WIT"@ == (x + Seq::<char>::empty()) + "::WIT"@);
            }
        },
        _ => {},
    }
}

// ---------------------------------------------------------------------------
// Collecting results: the first error, or all values
// ---------------------------------------------------------------------------

/// All the values when every result is `Ok`, else the first error.
pub open spec fn collect_results(rs: Seq<Result<Seq<char>, CodegenError>>) -> Result<
    Seq<Seq<char>>,
    CodegenError,
>
    decreases rs.len(),
{
    if rs.len() == 0 {
        Ok(Seq::empty())
    } else {
        match collect_results(rs.drop_last()) {
            Err(e) => Err(e),
            Ok(v) => match rs.last() {
                Err(e) => Err(e),
                Ok(x) => Ok(v.push(x)),
            },
        }
    }
}

pub(crate) proof fn lemma_collect_step(rs: Seq<Result<Seq<char>, CodegenError>>, i: int)
    requires
        0 <= i < rs.len(),
    ensures
        collect_results(rs.take(i + 1)) == match collect_results(rs.take(i)) {
            Err(e) => Err(e),
            Ok(v) => match rs[i] {
                Err(e) => Err(e),
                Ok(x) => Ok(v.push(x)),
            },
        },
{
    assert(rs.take(i + 1).drop_last() =~= rs.take(i));
    assert(rs.take(i + 1).last() == rs[i]);
}

pub(crate) proof fn lemma_collect_err_prefix(rs: Seq<Result<Seq<char>, CodegenError>>, n: int)
    requires
        0 <= n <= rs.len(),
        collect_results(rs.take(n)) is Err,
    ensures
        collect_results(rs) == collect_results(rs.take(n)),
    decreases rs.len() - n,
{
    if n < rs.len() {
        lemma_collect_step(rs, n);
        lemma_collect_err_prefix(rs, n + 1);
    } else {
        assert(rs.take(n) =~= rs);
    }
}

pub(crate) proof fn lemma_collect_all(rs: Seq<Result<Seq<char>, CodegenError>>)
    ensures
        collect_results(rs.take(rs.len() as int)) == collect_results(rs),
{
    assert(rs.take(rs.len() as int) =~= rs);
}

/// Results that all succeed collect into their values, in order.
pub(crate) proof fn lemma_collect_all_ok(
    rs: Seq<Result<Seq<char>, CodegenError>>,
    cs: Seq<Seq<char>>,
)
    requires
        rs.len() == cs.len(),
        forall|i: int| 0 <= i < rs.len() ==> #[trigger] rs[i] == Ok::<Seq<char>, CodegenError>(cs[i]),
    ensures
        collect_results(rs) == Ok::<Seq<Seq<char>>, CodegenError>(cs),
    decreases rs.len(),
{
    if rs.len() > 0 {
        let (a, b) = (rs.drop_last(), cs.drop_last());
        assert forall|i: int| 0 <= i < a.len() implies #[trigger] a[i] == Ok::<
            Seq<char>,
            CodegenError,
        >(b[i]) by {
            assert(a[i] == rs[i]);
        }
        lemma_collect_all_ok(a, b);
        assert(rs.last() == Ok::<Seq<char>, CodegenError>(cs[cs.len() - 1]));
        assert(b.push(cs.last()) =~= cs);
    } else {
        assert(cs =~= Seq::<Seq<char>>::empty());
    }
}

/// Where the first failing result stands at `k`, collecting fails with its error.
pub(crate) proof fn lemma_collect_first_err(rs: Seq<Result<Seq<char>, CodegenError>>, k: int)
    requires
        0 <= k < rs.len(),
        forall|i: int| 0 <= i < k ==> #[trigger] rs[i] is Ok,
        rs[k] is Err,
    ensures
        collect_results(rs) == Err::<Seq<Seq<char>>, CodegenError>(rs[k]->Err_0),
{
    let cs = Seq::new(k as nat, |i: int| rs[i]->Ok_0);
    let p = rs.take(k);
    assert forall|i: int| 0 <= i < p.len() implies #[trigger] p[i] == Ok::<
        Seq<char>,
        CodegenError,
    >(cs[i]) by {
        assert(p[i] == rs[i]);
    }
    lemma_collect_all_ok(p, cs);
    lemma_collect_step(rs, k);
    lemma_collect_err_prefix(rs, k + 1);
}

/// A path type is written with all of its segments, joined by `::`: its
/// expression starts with the whole path whether or not the last segment has
/// generic arguments, and where the last segment has none it is exactly the
/// path, followed by `::WIT` at the root (`std::string::String::WIT`).
pub proof fn law_path_type_keeps_whole_path(t: TypeAst, is_root: bool)
    ensures
        match t {
            TypeAst::Path { qself, segments } => {
                let p = join(segments@.map_values(|s: PathSegmentAst| s.ident@), "::"@);
                !qself && segments@.len() > 0 ==> {
                    &&& (type_const(t, is_root) matches Ok(x) ==> p.len() <= x.len() && x.take(
                        p.len() as int,
                    ) == p)
                    &&& (!(segments@.last().arguments is AngleBracketed) ==> type_const(t, is_root)
                        == Ok::<Seq<char>, CodegenError>(
                        p + if is_root {
                            "::WIT"@
                        } else {
                            Seq::empty()
                        },
                    ))
                }
            },
            _ => true,
        },
{
    match t {
        TypeAst::Path { qself, segments } => {
            let p = join(segments@.map_values(|s: PathSegmentAst| s.ident@), "::"@);
            if !qself && segments@.len() > 0 {
                let seg = segments@.last();
                match seg.arguments {
                    PathArgumentsAst::AngleBracketed(args) => {
                        if let Ok(v) = args_consts(args@) {
                            let x = p + "::<"@ + join(v, ", "@) + ">"@ + root_suffix(is_root);
                            assert(x.take(p.len() as int) =~= p);
                        }
                    },
                    _ => {},
                }
            }
        },
        _ => {},
    }
}

proof fn lemma_types_consts_ok(ts: Seq<TypeAst>, cs: Seq<Seq<char>>)
    requires
        ts.len() == cs.len(),
        forall|i: int|
            0 <= i < ts.len() ==> type_const(#[trigger] ts[i], false) == Ok::<
                Seq<char>,
                CodegenError,
            >(cs[i]),
    ensures
        types_consts(ts) == Ok::<Seq<Seq<char>>, CodegenError>(cs),
    decreases ts.len(),
{
    if ts.len() > 0 {
        let (a, b) = (ts.drop_last(), cs.drop_last());
        assert forall|i: int| 0 <= i < a.len() implies type_const(#[trigger] a[i], false) == Ok::<
            Seq<char>,
            CodegenError,
        >(b[i]) by {
            assert(a[i] == ts[i]);
        }
        lemma_types_consts_ok(a, b);
        assert(type_const(ts.last(), false) == Ok::<Seq<char>, CodegenError>(cs[cs.len() - 1]));
        assert(b.push(cs.last()) =~= cs);
    } else {
        assert(cs =~= Seq::<Seq<char>>::empty());
    }
}

proof fn lemma_args_consts_ok(args: Seq<GenericArgumentAst>, ts: Seq<TypeAst>, cs: Seq<Seq<char>>)
    requires
        args.len() == ts.len(),
        ts.len() == cs.len(),
        forall|i: int| 0 <= i < args.len() ==> #[trigger] args[i] == GenericArgumentAst::Type(ts[i]),
        forall|i: int|
            0 <= i < ts.len() ==> type_const(#[trigger] ts[i], false) == Ok::<
                Seq<char>,
                CodegenError,
            >(cs[i]),
    ensures
        args_consts(args) == Ok::<Seq<Seq<char>>, CodegenError>(cs),
    decreases args.len(),
{
    if args.len() > 0 {
        let (a, t, b) = (args.drop_last(), ts.drop_last(), cs.drop_last());
        assert forall|i: int| 0 <= i < a.len() implies #[trigger] a[i] == GenericArgumentAst::Type(
            t[i],
        ) by {
            assert(a[i] == args[i]);
        }
        assert forall|i: int| 0 <= i < t.len() implies type_const(#[trigger] t[i], false) == Ok::<
            Seq<char>,
            CodegenError,
        >(b[i]) by {
            assert(t[i] == ts[i]);
        }
        lemma_args_consts_ok(a, t, b);
        assert(args.last() == GenericArgumentAst::Type(ts[ts.len() - 1]));
        assert(type_const(ts[ts.len() - 1], false) == Ok::<Seq<char>, CodegenError>(cs[cs.len() - 1]));
        assert(arg_const(args.last()) == Ok::<Seq<char>, CodegenError>(cs[cs.len() - 1]));
        assert(b.push(cs.last()) =~= cs);
    } else {
        assert(cs =~= Seq::<Seq<char>>::empty());
    }
}

/// A tuple type lists the expression of every item, in order: where its items
/// have the expressions `cs`, one each, it is `(` and `cs` joined by `, `,
/// then `)`, with `::WIT` after it at the root.
pub proof fn law_tuple_type_lists_every_item(t: TypeAst, is_root: bool, cs: Seq<Seq<char>>)
    requires
        t is Tuple,
        t->Tuple_0@.len() == cs.len(),
        forall|i: int|
            0 <= i < cs.len() ==> type_const(#[trigger] t->Tuple_0@[i], false) == Ok::<
                Seq<char>,
                CodegenError,
            >(cs[i]),
    ensures
        type_const(t, is_root) == Ok::<Seq<char>, CodegenError>(
            "("@ + join(cs, ", "@) + ")"@ + if is_root {
                "::WIT"@
            } else {
                Seq::empty()
            },
        ),
{
    lemma_types_consts_ok(t->Tuple_0@, cs);
}

/// A generic path type lists the expression of every type argument, in order:
/// where the last segment's arguments are the types `ts` with the expressions
/// `cs`, one each, it is the whole path, `::<`, `cs` joined by `, `, and `>`,
/// with `::WIT` after it at the root (`Option::<String>::WIT`).
pub proof fn law_generic_type_lists_every_argument(
    t: TypeAst,
    is_root: bool,
    ts: Seq<TypeAst>,
    cs: Seq<Seq<char>>,
)
    requires
        t is Path,
        !t->qself,
        t->segments@.len() > 0,
        t->segments@.last().arguments is AngleBracketed,
        t->segments@.last().arguments->AngleBracketed_0@.len() == ts.len(),
        forall|i: int|
            0 <= i < ts.len() ==> #[trigger] t->segments@.last().arguments->AngleBracketed_0@[i]
                == GenericArgumentAst::Type(ts[i]),
        ts.len() == cs.len(),
        forall|i: int|
            0 <= i < ts.len() ==> type_const(#[trigger] ts[i], false) == Ok::<
                Seq<char>,
                CodegenError,
            >(cs[i]),
    ensures
        type_const(t, is_root) == Ok::<Seq<char>, CodegenError>(
            join(t->segments@.map_values(|s: PathSegmentAst| s.ident@), "::"@) + "::<"@ + join(
                cs,
                ", "@,
            ) + ">"@ + if is_root {
                "::WIT"@
            } else {
                Seq::empty()
            },
        ),
{
    let args = t->segments@.last().arguments->AngleBracketed_0@;
    lemma_args_consts_ok(args, ts, cs);
}

// ---------------------------------------------------------------------------
// Registry entries and impls
// ---------------------------------------------------------------------------

/// A string literal holding `s`.
pub open spec fn str_lit(s: Seq<char>) -> Seq<char> {
    "\""@ + s + "\""@
}

/// Appends the string literal of `s`.
pub fn push_str_lit(out: &mut String, s: &str)
    ensures
        final(out)@ == old(out)@ + str_lit(s@),
{
    out.append("\"");
    out.append(s);
    out.append("\"");
}

/// The static that registers a type's WIT metadata with the registry of all
/// WIT types, named after the type in ASCII uppercase with `_WIT` appended.
pub open spec fn distributed_slice_text(ident: Seq<char>) -> Seq<char> {
    "#[distributed_slice(crate::ALL_WIT_TYPES_FOR_GOLEM)]\nstatic "@ + ascii_uppercase(ident)
        + "_WIT: fn() -> &'static ::golem_rust::WitMeta = || "@ + ident + "::WIT;\n"@
}

/// The registration of a type's WIT metadata: see [`distributed_slice_text`].
pub fn make_distributed_slice(ident: &str) -> (r: String)
    ensures
        r@ == distributed_slice_text(ident@),
{
    let mut out = string_of("#[distributed_slice(crate::ALL_WIT_TYPES_FOR_GOLEM)]\nstatic ");
    let upper = to_ascii_uppercase(ident);
    out.append(upper.as_str());
    out.append("_WIT: fn() -> &'static ::golem_rust::WitMeta = || ");
    out.append(ident);
    out.append("::WIT;\n");
    out
}

/// The text `heck`'s `to_pascal_case` makes of a string: `get_address`
/// becomes `GetAddress`.
pub uninterp spec fn pascal_case(s: Seq<char>) -> Seq<char>;

/// `heck::ToPascalCase::to_pascal_case`. The contract names the result.
#[verifier::external_body]
fn to_pascal_case(s: &str) -> (r: String)
    ensures
        r@ == pascal_case(s@),
{
    heck::ToPascalCase::to_pascal_case(s)
}

/// What a parameter contributes to a function's metadata: `("name", T::WIT)`.
pub open spec fn fn_arg_entry(arg: FnArgAst) -> Result<Seq<char>, CodegenError> {
    match arg {
        FnArgAst::Receiver => Err(CodegenError::ReceiverArgument),
        FnArgAst::Typed(PatAst::Ident(name), ty) => match type_const(ty, true) {
            Err(e) => Err(e),
            Ok(c) => Ok("("@ + str_lit(name@) + ", "@ + c + ")"@),
        },
        FnArgAst::Typed(PatAst::Other, _) => Err(CodegenError::UnexpectedPattern),
    }
}

pub open spec fn fn_arg_wf(arg: FnArgAst) -> bool {
    arg matches FnArgAst::Typed(_, ty) ==> type_wf(ty)
}

/// The code that records a function's WIT metadata: a unit struct named
/// after the function in PascalCase, its `HasWitMetadata` impl describing the
/// function, and its registration.
pub open spec fn global_function_text(
    fname: Seq<char>,
    struct_name: Seq<char>,
    args: Seq<Seq<char>>,
    result: Seq<char>,
) -> Seq<char> {
    "struct "@ + struct_name + " {}\nimpl HasWitMetadata for "@ + struct_name
        + " {\n    const IDENT: &'static str = "@ + str_lit(fname)
        + ";\n    const WIT: &'static WitMeta = &WitMeta::Function(FunctionMeta {\n        name: Ident("@
        + str_lit(fname) + "),\n        args: &["@ + join(args, ", "@) + "],\n        result: "@
        + result + ",\n    });\n}\n"@ + distributed_slice_text(struct_name)
}

/// The metadata code for a function whose struct is named `struct_name`: the
/// return type is checked first, then the parameters in order.
pub open spec fn global_function_code_result(sig: SignatureAst, struct_name: Seq<char>) -> Result<
    Seq<char>,
    CodegenError,
> {
    match sig.output {
        None => Err(CodegenError::MissingReturnType),
        Some(t) => match type_const(t, true) {
            Err(e) => Err(e),
            Ok(result) => match collect_results(
                sig.inputs@.map_values(|a: FnArgAst| fn_arg_entry(a)),
            ) {
                Err(e) => Err(e),
                Ok(args) => Ok(global_function_text(sig.ident@, struct_name, args, result)),
            },
        },
    }
}

/// What `implement_global_function` produces for a signature: the metadata
/// code with the struct named after the function in PascalCase.
pub open spec fn global_function_result(sig: SignatureAst) -> Result<Seq<char>, CodegenError> {
    global_function_code_result(sig, pascal_case(sig.ident@))
}

/// A function's metadata lists one entry per parameter, in order: where the
/// parameters are plainly named and their types have the expressions `cs`,
/// one each, and the return type has the expression `r`, the metadata holds
/// each parameter's name with its expression, `("name", T::WIT)`, and `r`.
pub proof fn law_function_metadata_lists_every_parameter(
    sig: SignatureAst,
    struct_name: Seq<char>,
    cs: Seq<Seq<char>>,
    r: Seq<char>,
)
    requires
        sig.output is Some,
        type_const(sig.output->Some_0, true) == Ok::<Seq<char>, CodegenError>(r),
        cs.len() == sig.inputs@.len(),
        forall|i: int|
            0 <= i < cs.len() ==> (#[trigger] sig.inputs@[i]) is Typed && sig.inputs@[i]->Typed_0 is Ident
                && type_const(sig.inputs@[i]->Typed_1, true) == Ok::<Seq<char>, CodegenError>(cs[i]),
    ensures
        global_function_code_result(sig, struct_name) == Ok::<Seq<char>, CodegenError>(
            global_function_text(
                sig.ident@,
                struct_name,
                Seq::new(
                    cs.len(),
                    |i: int|
                        "("@ + str_lit(sig.inputs@[i]->Typed_0->Ident_0@) + ", "@ + cs[i] + ")"@,
                ),
                r,
            ),
        ),
{
    let rs = sig.inputs@.map_values(|a: FnArgAst| fn_arg_entry(a));
    let es = Seq::new(
        cs.len(),
        |i: int| "("@ + str_lit(sig.inputs@[i]->Typed_0->Ident_0@) + ", "@ + cs[i] + ")"@,
    );
    assert forall|i: int| 0 <= i < rs.len() implies #[trigger] rs[i] == Ok::<Seq<char>, CodegenError>(
        es[i],
    ) by {
        assert(sig.inputs@[i] is Typed);
    }
    lemma_collect_all_ok(rs, es);
}

/// The metadata code for a function, its struct named `struct_name`: see
/// [`global_function_code_result`].
#[verifier::loop_isolation(false)]
pub fn global_function_code(sig: &SignatureAst, struct_name: &str) -> (r: Result<
    String,
    CodegenError,
>)
    requires
        sig.output matches Some(t) ==> type_wf(t),
        forall|i: int| 0 <= i < sig.inputs@.len() ==> fn_arg_wf(#[trigger] sig.inputs@[i]),
    ensures
        match (r, global_function_code_result(*sig, struct_name@)) {
            (Ok(s), Ok(t)) => s@ == t,
            (Err(e), Err(f)) => e == f,
            _ => false,
        },
{
    let result = match &sig.output {
        None => {
            return Err(CodegenError::MissingReturnType);
        },
        Some(t) => match make_type_wit_const(t) {
            Ok(c) => c,
            Err(e) => {
                return Err(e);
            },
        },
    };
    let ghost rs = sig.inputs@.map_values(|a: FnArgAst| fn_arg_entry(a));
    let mut parts: Vec<String> = Vec::new();
    let mut i: usize = 0;
    while i < sig.inputs.len()
        invariant
            i <= sig.inputs@.len(),
            rs == sig.inputs@.map_values(|a: FnArgAst| fn_arg_entry(a)),
            forall|j: int| 0 <= j < sig.inputs@.len() ==> fn_arg_wf(#[trigger] sig.inputs@[j]),
            collect_results(rs.take(i as int)) matches Ok(v) && views(parts@) == v,
        decreases sig.inputs@.len() - i,
    {
        proof {
            lemma_collect_step(rs, i as int);
        }
        assert(fn_arg_wf(sig.inputs@[i as int]));
        let entry: Result<String, CodegenError> = match &sig.inputs[i] {
            FnArgAst::Receiver => Err(CodegenError::ReceiverArgument),
            FnArgAst::Typed(pat, ty) => match pat {
                PatAst::Ident(name) => match make_type_wit_const(ty) {
                    Err(e) => Err(e),
                    Ok(c) => {
                        let mut x = string_of("(");
                        push_str_lit(&mut x, name.as_str());
                        x.append(", ");
                        x.append(c.as_str());
                        x.append(")");
                        Ok(x)
                    },
                },
                PatAst::Other => Err(CodegenError::UnexpectedPattern),
            },
        };
        match entry {
            Ok(x) => {
                let ghost before = views(parts@);
                parts.push(x);
                assert(views(parts@) =~= before.push(x@));
            },
            Err(e) => {
                proof {
                    lemma_collect_err_prefix(rs, i + 1);
                }
                return Err(e);
            },
        }
        i = i + 1;
    }
    proof {
        lemma_collect_all(rs);
    }
    let args = join_strings(&parts, ", ");
    let mut out = string_of("struct ");
    out.append(struct_name);
    out.append(" {}\nimpl HasWitMetadata for ");
    out.append(struct_name);
    out.append(" {\n    const IDENT: &'static str = ");
    push_str_lit(&mut out, sig.ident.as_str());
    out.append(";\n    const WIT: &'static WitMeta = &WitMeta::Function(FunctionMeta {\n        name: Ident(");
    push_str_lit(&mut out, sig.ident.as_str());
    out.append("),\n        args: &[");
    out.append(args.as_str());
    out.append("],\n        result: ");
    out.append(result.as_str());
    out.append(",\n    });\n}\n");
    let slice = make_distributed_slice(struct_name);
    out.append(slice.as_str());
    Ok(out)
}

/// The metadata code for a function: see [`global_function_result`]. The
/// function's own code follows it unchanged.
pub fn implement_global_function(sig: &SignatureAst) -> (r: Result<String, CodegenError>)
    requires
        sig.output matches Some(t) ==> type_wf(t),
        forall|i: int| 0 <= i < sig.inputs@.len() ==> fn_arg_wf(#[trigger] sig.inputs@[i]),
    ensures
        match (r, global_function_result(*sig)) {
            (Ok(s), Ok(t)) => s@ == t,
            (Err(e), Err(f)) => e == f,
            _ => false,
        },
{
    let struct_name = to_pascal_case(sig.ident.as_str());
    global_function_code(sig, struct_name.as_str())
}

} // verus!
