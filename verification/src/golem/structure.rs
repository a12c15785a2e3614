//! `HasWitMetadata` for a struct with named fields: a WIT record.

use vstd::prelude::*;
use vstd::string::StringExecFns;

use crate::golem::{
    collect_results, distributed_slice_text, lemma_collect_all, lemma_collect_all_ok,
    lemma_collect_err_prefix,
    lemma_collect_step, make_distributed_slice, make_type_wit_const, push_str_lit, str_lit,
    type_const, type_wf, CodegenError,
};
use crate::syntax::TypeAst;
use crate::text::{join, join_strings, string_of, views};

verus! {

broadcast use vstd::string::group_string_axioms;

/// A struct with named fields, as the derive input describes it.
pub struct StructContainer {
    pub ident: String,
    pub fields: Vec<StructField>,
}

pub struct StructField {
    pub ty: TypeAst,
    pub ident: Option<String>,
    pub rename: Option<String>,
}

/// A field's entry in the record metadata: `("name", T::WIT)`.
pub open spec fn field_entry(f: StructField) -> Result<Seq<char>, CodegenError> {
    match type_const(f.ty, true) {
        Err(e) => Err(e),
        Ok(c) => Ok("("@ + str_lit(f.ident->Some_0@) + ", "@ + c + ")"@),
    }
}

/// The impl describing the struct as a record, then its registration.
pub open spec fn record_impl_text(name: Seq<char>, fields: Seq<Seq<char>>) -> Seq<char> {
    "impl ::golem_rust::HasWitMetadata for "@ + name
        + " {\n    const IDENT: &'static str = "@ + str_lit(name)
        + ";\n    const WIT: &'static ::golem_rust::WitMeta = &::golem_rust::WitMeta::Record(::golem_rust::RecordMeta {\n        name: ::golem_rust::Ident("@
        + str_lit(name) + "),\n        fields: &["@ + join(fields, ", "@) + "],\n    });\n}\n"@
        + distributed_slice_text(name)
}

/// The code for a struct, or the first field type that cannot be described.
pub open spec fn expand_result(s: StructContainer) -> Result<Seq<char>, CodegenError> {
    match collect_results(s.fields@.map_values(|f: StructField| field_entry(f))) {
        Err(e) => Err(e),
        Ok(fields) => Ok(record_impl_text(s.ident@, fields)),
    }
}

/// Every field is named and its type well formed.
pub open spec fn fields_wf(s: StructContainer) -> bool {
    forall|i: int|
        0 <= i < s.fields@.len() ==> (#[trigger] s.fields@[i]).ident is Some && type_wf(
            s.fields@[i].ty,
        )
}

/// The metadata code for a struct: see [`expand_result`]. The struct's own
/// code precedes it unchanged.
pub fn expand(s: &StructContainer) -> (r: Result<String, CodegenError>)
    requires
        fields_wf(*s),
    ensures
        match (r, expand_result(*s)) {
            (Ok(x), Ok(t)) => x@ == t,
            (Err(e), Err(f)) => e == f,
            _ => false,
        },
{
    let ghost rs = s.fields@.map_values(|f: StructField| field_entry(f));
    let mut parts: Vec<String> = Vec::new();
    let mut i: usize = 0;
    while i < s.fields.len()
        invariant
            i <= s.fields@.len(),
            rs == s.fields@.map_values(|f: StructField| field_entry(f)),
            fields_wf(*s),
            collect_results(rs.take(i as int)) matches Ok(v) && views(parts@) == v,
        decreases s.fields@.len() - i,
    {
        proof {
            lemma_collect_step(rs, i as int);
        }
        let field = &s.fields[i];
        assert(field.ident is Some && type_wf(field.ty));
        let name = match &field.ident {
            Some(n) => n,
            None => {
                // Every field is named (`fields_wf`).
                assert(false);
                return Err(CodegenError::UnsupportedType);
            },
        };
        match make_type_wit_const(&field.ty) {
            Ok(c) => {
                let mut x = string_of("(");
                push_str_lit(&mut x, name.as_str());
                x.append(", ");
                x.append(c.as_str());
                x.append(")");
                let ghost before = views(parts@);
                parts.push(x);
                assert(views(parts@) =~= before.push(x@));
            },
            Err(e) => {
                proof {
                    lemma_collect_err_prefix(rs, i + 1);
                }
                return Err(e);
            },
        }
        i = i + 1;
    }
    proof {
        lemma_collect_all(rs);
    }
    let fields = join_strings(&parts, ", ");
    let name = s.ident.as_str();
    let mut out = string_of("impl ::golem_rust::HasWitMetadata for ");
    out.append(name);
    out.append(" {\n    const IDENT: &'static str = ");
    push_str_lit(&mut out, name);
    out.append(
        ";\n    const WIT: &'static ::golem_rust::WitMeta = &::golem_rust::WitMeta::Record(::golem_rust::RecordMeta {\n        name: ::golem_rust::Ident(",
    );
    push_str_lit(&mut out, name);
    out.append("),\n        fields: &[");
    out.append(fields.as_str());
    out.append("],\n    });\n}\n");
    let slice = make_distributed_slice(name);
    out.append(slice.as_str());
    Ok(out)
}

/// A record lists one entry per field, in the fields' order: where the fields'
/// types have the expressions `cs`, one each, the record metadata holds, for
/// each field, its name and its expression, `("name", T::WIT)`, and nothing else.
pub proof fn law_record_lists_every_field(s: StructContainer, cs: Seq<Seq<char>>)
    requires
        cs.len() == s.fields@.len(),
        forall|i: int|
            0 <= i < cs.len() ==> (#[trigger] s.fields@[i]).ident is Some && type_const(
                s.fields@[i].ty,
                true,
            ) == Ok::<Seq<char>, CodegenError>(cs[i]),
    ensures
        expand_result(s) == Ok::<Seq<char>, CodegenError>(
            record_impl_text(
                s.ident@,
                Seq::new(
                    cs.len(),
                    |i: int| "("@ + str_lit(s.fields@[i].ident->Some_0@) + ", "@ + cs[i] + ")"@,
                ),
            ),
        ),
{
    let rs = s.fields@.map_values(|f: StructField| field_entry(f));
    let es = Seq::new(
        cs.len(),
        |i: int| "("@ + str_lit(s.fields@[i].ident->Some_0@) + ", "@ + cs[i] + ")"@,
    );
    assert forall|i: int| 0 <= i < rs.len() implies #[trigger] rs[i] == Ok::<Seq<char>, CodegenError>(
        es[i],
    ) by {
        assert(s.fields@[i].ident is Some);
    }
    lemma_collect_all_ok(rs, es);
}

} // verus!
