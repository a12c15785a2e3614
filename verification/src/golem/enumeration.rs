//! `HasWitMetadata` for an enum of unit variants: a WIT enum.

use vstd::prelude::*;
use vstd::string::StringExecFns;

use crate::golem::{distributed_slice_text, make_distributed_slice, push_str_lit, str_lit};
use crate::text::{join, join_strings, string_of, views};

verus! {

broadcast use vstd::string::group_string_axioms;

/// An enum whose variants carry no data, as the derive input describes it.
pub struct EnumContainer {
    pub ident: String,
    pub variants: Vec<EnumVariant>,
}

pub struct EnumVariant {
    pub ident: String,
}

/// A variant's entry in the enum metadata: `::golem_rust::Ident("Name")`.
pub open spec fn variant_entry(v: EnumVariant) -> Seq<char> {
    "::golem_rust::Ident("@ + str_lit(v.ident@) + ")"@
}

/// The impl describing the enum, then its registration.
pub open spec fn expand_text(e: EnumContainer) -> Seq<char> {
    "impl ::golem_rust::HasWitMetadata for "@ + e.ident@
        + " {\n    const IDENT: &'static str = "@ + str_lit(e.ident@)
        + ";\n    const WIT: &'static ::golem_rust::WitMeta = &::golem_rust::WitMeta::Enum(::golem_rust::EnumMeta {\n        name: ::golem_rust::Ident("@
        + str_lit(e.ident@) + "),\n        variants: &["@ + join(
        e.variants@.map_values(|v: EnumVariant| variant_entry(v)),
        ", "@,
    ) + "],\n    });\n}\n"@ + distributed_slice_text(e.ident@)
}

/// The metadata code for an enum: see [`expand_text`]. The enum's own code
/// precedes it unchanged.
pub fn expand(e: &EnumContainer) -> (r: String)
    ensures
        r@ == expand_text(*e),
{
    let mut parts: Vec<String> = Vec::new();
    let mut i: usize = 0;
    while i < e.variants.len()
        invariant
            i <= e.variants@.len(),
            parts@.len() == i,
            forall|j: int| 0 <= j < i ==> (#[trigger] parts@[j])@ == variant_entry(e.variants@[j]),
        decreases e.variants@.len() - i,
    {
        let mut x = string_of("::golem_rust::Ident(");
        push_str_lit(&mut x, e.variants[i].ident.as_str());
        x.append(")");
        parts.push(x);
        i = i + 1;
    }
    assert(views(parts@) =~= e.variants@.map_values(|v: EnumVariant| variant_entry(v)));
    let variants = join_strings(&parts, ", ");
    let name = e.ident.as_str();
    let mut out = string_of("impl ::golem_rust::HasWitMetadata for ");
    out.append(name);
    out.append(" {\n    const IDENT: &'static str = ");
    push_str_lit(&mut out, name);
    out.append(
        ";\n    const WIT: &'static ::golem_rust::WitMeta = &::golem_rust::WitMeta::Enum(::golem_rust::EnumMeta {\n        name: ::golem_rust::Ident(",
    );
    push_str_lit(&mut out, name);
    out.append("),\n        variants: &[");
    out.append(variants.as_str());
    out.append("],\n    });\n}\n");
    let slice = make_distributed_slice(name);
    out.append(slice.as_str());
    out
}

/// The enum metadata lists every variant's name, in order, and nothing else.
pub proof fn law_enum_lists_every_variant(e: EnumContainer)
    ensures
        expand_text(e) == "impl ::golem_rust::HasWitMetadata for "@ + e.ident@
            + " {\n    const IDENT: &'static str = "@ + str_lit(e.ident@)
            + ";\n    const WIT: &'static ::golem_rust::WitMeta = &::golem_rust::WitMeta::Enum(::golem_rust::EnumMeta {\n        name: ::golem_rust::Ident("@
            + str_lit(e.ident@) + "),\n        variants: &["@ + join(
            Seq::new(
                e.variants@.len(),
                |i: int| "::golem_rust::Ident("@ + str_lit(e.variants@[i].ident@) + ")"@,
            ),
            ", "@,
        ) + "],\n    });\n}\n"@ + distributed_slice_text(e.ident@),
{
    assert(e.variants@.map_values(|v: EnumVariant| variant_entry(v)) =~= Seq::new(
        e.variants@.len(),
        |i: int| "::golem_rust::Ident("@ + str_lit(e.variants@[i].ident@) + ")"@,
    ));
}

} // verus!
