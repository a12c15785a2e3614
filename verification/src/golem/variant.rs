//! `HasWitMetadata` for an enum whose variants carry unnamed fields: a WIT variant.

use vstd::prelude::*;
use vstd::string::StringExecFns;

use crate::golem::{
    collect_results, distributed_slice_text, lemma_collect_all, lemma_collect_all_ok,
    lemma_collect_err_prefix, lemma_collect_first_err,
    lemma_collect_step, make_distributed_slice, make_type_wit_const, push_str_lit, str_lit,
    type_const, type_wf, CodegenError,
};
use crate::syntax::TypeAst;
use crate::text::{join, join_strings, string_of, views};

verus! {

broadcast use vstd::string::group_string_axioms;

/// An enum with tuple variants, as the derive input describes it.
pub struct EnumContainer {
    pub ident: String,
    pub variants: Vec<EnumVariant>,
}

pub struct EnumVariant {
    pub ident: String,
    pub fields: Vec<FieldItem>,
}

pub struct FieldItem {
    pub ty: TypeAst,
}

/// A field's entry: its type's metadata expression.
pub open spec fn field_const(f: FieldItem) -> Result<Seq<char>, CodegenError> {
    type_const(f.ty, true)
}

/// A case's entry in the variant metadata.
pub open spec fn option_text(name: Seq<char>, fields: Seq<Seq<char>>) -> Seq<char> {
    "::golem_rust::VariantOption {\n            name: ::golem_rust::Ident("@ + str_lit(name)
        + "),\n            fields: &["@ + join(fields, ", "@) + "],\n        }"@
}

/// A case's entry, or the first of its field types that cannot be described.
pub open spec fn option_entry(v: EnumVariant) -> Result<Seq<char>, CodegenError> {
    match collect_results(v.fields@.map_values(|f: FieldItem| field_const(f))) {
        Err(e) => Err(e),
        Ok(fields) => Ok(option_text(v.ident@, fields)),
    }
}

/// The impl describing the enum as a variant, then its registration.
pub open spec fn variant_impl_text(name: Seq<char>, options: Seq<Seq<char>>) -> Seq<char> {
    "impl ::golem_rust::HasWitMetadata for "@ + name
        + " {\n    const IDENT: &'static str = "@ + str_lit(name)
        + ";\n    const WIT: &'static ::golem_rust::WitMeta = &::golem_rust::WitMeta::Variant(::golem_rust::VariantMeta {\n        name: ::golem_rust::Ident("@
        + str_lit(name) + "),\n        fields: &["@ + join(options, ", "@) + "],\n    });\n}\n"@
        + distributed_slice_text(name)
}

/// The code for the enum, or the first field type, case by case, that cannot be described.
pub open spec fn expand_result(e: EnumContainer) -> Result<Seq<char>, CodegenError> {
    match collect_results(e.variants@.map_values(|v: EnumVariant| option_entry(v))) {
        Err(e) => Err(e),
        Ok(options) => Ok(variant_impl_text(e.ident@, options)),
    }
}

/// Every field type is well formed.
pub open spec fn variants_wf(e: EnumContainer) -> bool {
    forall|i: int, j: int|
        0 <= i < e.variants@.len() && 0 <= j < e.variants@[i].fields@.len() ==> type_wf(
            #[trigger] e.variants@[i].fields@[j].ty,
        )
}

fn option_of(v: &EnumVariant) -> (r: Result<String, CodegenError>)
    requires
        forall|j: int| 0 <= j < v.fields@.len() ==> type_wf(#[trigger] v.fields@[j].ty),
    ensures
        match (r, option_entry(*v)) {
            (Ok(x), Ok(t)) => x@ == t,
            (Err(e), Err(f)) => e == f,
            _ => false,
        },
{
    let ghost rs = v.fields@.map_values(|f: FieldItem| field_const(f));
    let mut parts: Vec<String> = Vec::new();
    let mut i: usize = 0;
    while i < v.fields.len()
        invariant
            i <= v.fields@.len(),
            rs == v.fields@.map_values(|f: FieldItem| field_const(f)),
            forall|j: int| 0 <= j < v.fields@.len() ==> type_wf(#[trigger] v.fields@[j].ty),
            collect_results(rs.take(i as int)) matches Ok(w) && views(parts@) == w,
        decreases v.fields@.len() - i,
    {
        proof {
            lemma_collect_step(rs, i as int);
        }
        assert(type_wf(v.fields@[i as int].ty));
        match make_type_wit_const(&v.fields[i].ty) {
            Ok(c) => {
                let ghost before = views(parts@);
                parts.push(c);
                assert(views(parts@) =~= before.push(c@));
            },
            Err(e) => {
                proof {
                    lemma_collect_err_prefix(rs, i + 1);
                }
                return Err(e);
            },
        }
        i = i + 1;
    }
    proof {
        lemma_collect_all(rs);
    }
    let fields = join_strings(&parts, ", ");
    let mut x = string_of("::golem_rust::VariantOption {\n            name: ::golem_rust::Ident(");
    push_str_lit(&mut x, v.ident.as_str());
    x.append("),\n            fields: &[");
    x.append(fields.as_str());
    x.append("],\n        }");
    Ok(x)
}

/// The metadata code for an enum with tuple variants: see
/// [`expand_result`]. The enum's own code precedes it unchanged.
pub fn expand(e: &EnumContainer) -> (r: Result<String, CodegenError>)
    requires
        variants_wf(*e),
    ensures
        match (r, expand_result(*e)) {
            (Ok(x), Ok(t)) => x@ == t,
            (Err(e), Err(f)) => e == f,
            _ => false,
        },
{
    let ghost rs = e.variants@.map_values(|v: EnumVariant| option_entry(v));
    let mut parts: Vec<String> = Vec::new();
    let mut i: usize = 0;
    while i < e.variants.len()
        invariant
            i <= e.variants@.len(),
            rs == e.variants@.map_values(|v: EnumVariant| option_entry(v)),
            variants_wf(*e),
            collect_results(rs.take(i as int)) matches Ok(w) && views(parts@) == w,
        decreases e.variants@.len() - i,
    {
        proof {
            lemma_collect_step(rs, i as int);
        }
        assert forall|j: int| 0 <= j < e.variants@[i as int].fields@.len() implies type_wf(
            #[trigger] e.variants@[i as int].fields@[j].ty,
        ) by {}
        match option_of(&e.variants[i]) {
            Ok(x) => {
                let ghost before = views(parts@);
                parts.push(x);
                assert(views(parts@) =~= before.push(x@));
            },
            Err(err) => {
                proof {
                    lemma_collect_err_prefix(rs, i + 1);
                }
                return Err(err);
            },
        }
        i = i + 1;
    }
    proof {
        lemma_collect_all(rs);
    }
    let options = join_strings(&parts, ", ");
    let name = e.ident.as_str();
    let mut out = string_of("impl ::golem_rust::HasWitMetadata for ");
    out.append(name);
    out.append(" {\n    const IDENT: &'static str = ");
    push_str_lit(&mut out, name);
    out.append(
        ";\n    const WIT: &'static ::golem_rust::WitMeta = &::golem_rust::WitMeta::Variant(::golem_rust::VariantMeta {\n        name: ::golem_rust::Ident(",
    );
    push_str_lit(&mut out, name);
    out.append("),\n        fields: &[");
    out.append(options.as_str());
    out.append("],\n    });\n}\n");
    let slice = make_distributed_slice(name);
    out.append(slice.as_str());
    Ok(out)
}

/// A case's entry lists one metadata expression per field, in the fields'
/// order: where the fields' types have the expressions `cs`, one each, the
/// entry names the case and holds exactly `cs`, joined by `, `.
pub proof fn law_case_entry_lists_every_field(v: EnumVariant, cs: Seq<Seq<char>>)
    requires
        cs.len() == v.fields@.len(),
        forall|i: int|
            0 <= i < cs.len() ==> type_const(#[trigger] v.fields@[i].ty, true) == Ok::<
                Seq<char>,
                CodegenError,
            >(cs[i]),
    ensures
        option_entry(v) == Ok::<Seq<char>, CodegenError>(
            "::golem_rust::VariantOption {\n            name: ::golem_rust::Ident("@ + str_lit(v.ident@)
                + "),\n            fields: &["@ + join(cs, ", "@) + "],\n        }"@,
        ),
{
    let rs = v.fields@.map_values(|f: FieldItem| field_const(f));
    assert forall|i: int| 0 <= i < rs.len() implies #[trigger] rs[i] == Ok::<Seq<char>, CodegenError>(
        cs[i],
    ) by {
        assert(type_const(v.fields@[i].ty, true) == Ok::<Seq<char>, CodegenError>(cs[i]));
    }
    lemma_collect_all_ok(rs, cs);
}

/// A case whose field types cannot all be described fails with the error of
/// the first field, in order, that cannot be.
pub proof fn law_case_entry_fails_at_first_bad_field(v: EnumVariant, k: int)
    requires
        0 <= k < v.fields@.len(),
        forall|i: int| 0 <= i < k ==> type_const(#[trigger] v.fields@[i].ty, true) is Ok,
        type_const(v.fields@[k].ty, true) is Err,
    ensures
        option_entry(v) == Err::<Seq<char>, CodegenError>(
            type_const(v.fields@[k].ty, true)->Err_0,
        ),
{
    let rs = v.fields@.map_values(|f: FieldItem| field_const(f));
    assert forall|i: int| 0 <= i < k implies #[trigger] rs[i] is Ok by {
        assert(type_const(v.fields@[i].ty, true) is Ok);
    }
    lemma_collect_first_err(rs, k);
}

/// The variant's metadata lists one case entry per variant, in order: where
/// the variants have the entries `os`, one each, the impl holds exactly `os`.
pub proof fn law_variant_lists_every_case(e: EnumContainer, os: Seq<Seq<char>>)
    requires
        os.len() == e.variants@.len(),
        forall|i: int|
            0 <= i < os.len() ==> option_entry(#[trigger] e.variants@[i]) == Ok::<
                Seq<char>,
                CodegenError,
            >(os[i]),
    ensures
        expand_result(e) == Ok::<Seq<char>, CodegenError>(variant_impl_text(e.ident@, os)),
{
    let rs = e.variants@.map_values(|v: EnumVariant| option_entry(v));
    assert forall|i: int| 0 <= i < rs.len() implies #[trigger] rs[i] == Ok::<Seq<char>, CodegenError>(
        os[i],
    ) by {
        assert(option_entry(e.variants@[i]) == Ok::<Seq<char>, CodegenError>(os[i]));
    }
    lemma_collect_all_ok(rs, os);
}

} // verus!
