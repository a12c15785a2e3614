use golem_rust::golem::enumeration::{EnumContainer, EnumVariant};
use golem_rust::golem::structure::{StructContainer, StructField};
use golem_rust::golem::variant;
use golem_rust::golem::{global_function_code, implement_global_function, make_distributed_slice, make_type_wit_const, CodegenError};
use golem_rust::syntax::{FnArgAst, GenericArgumentAst, PatAst, PathArgumentsAst, PathSegmentAst, SignatureAst, TypeAst};
use std::str::FromStr;

fn seg(name: &str) -> PathSegmentAst {
    PathSegmentAst { ident: name.to_string(), arguments: PathArgumentsAst::Plain }
}

fn generic(name: &str, args: Vec<TypeAst>) -> PathSegmentAst {
    PathSegmentAst {
        ident: name.to_string(),
        arguments: PathArgumentsAst::AngleBracketed(args.into_iter().map(GenericArgumentAst::Type).collect()),
    }
}

fn path(segments: Vec<PathSegmentAst>) -> TypeAst {
    TypeAst::Path { qself: false, segments }
}

fn named(name: &str) -> TypeAst {
    path(vec![seg(name)])
}

fn tokens(s: &str) -> String {
    proc_macro2::TokenStream::from_str(s).unwrap().to_string()
}

fn test_make_type_wit_const(ty: TypeAst, expected: &str) {
    let result = make_type_wit_const(&ty).unwrap();
    assert_eq!(tokens(&result), tokens(expected));
}

#[test]
fn test_basic_type() {
    test_make_type_wit_const(named("String"), "String::WIT");
}

#[test]
fn test_generic_type() {
    test_make_type_wit_const(path(vec![generic("Option", vec![named("String")])]), "Option::<String>::WIT");
}

#[test]
fn test_nested_generic_type() {
    test_make_type_wit_const(
        path(vec![generic("Result", vec![path(vec![generic("Option", vec![named("String")])]), named("String")])]),
        "Result::<Option::<String>, String>::WIT",
    );
}

#[test]
fn test_tuple_type() {
    test_make_type_wit_const(TypeAst::Tuple(vec![named("String"), named("u32")]), "(String, u32)::WIT");
}

#[test]
fn test_nested_tuple_type() {
    test_make_type_wit_const(
        path(vec![generic("Result", vec![TypeAst::Tuple(vec![named("String"), named("u32")]), named("String")])]),
        "Result::<(String, u32), String>::WIT",
    );
}

#[test]
fn test_full_path() {
    let option = path(vec![seg("std"), seg("option"), generic("Option", vec![named("String")])]);
    let ty = path(vec![
        seg("std"),
        seg("result"),
        generic("Result", vec![TypeAst::Tuple(vec![option, named("u32")]), named("String")]),
    ]);
    test_make_type_wit_const(ty, "std::result::Result::<(std::option::Option::<String>, u32), String>::WIT");
}

#[test]
fn type_wit_const_exact_text() {
    let ty = path(vec![generic("Vec", vec![TypeAst::Tuple(vec![named("u8")])])]);
    assert_eq!(make_type_wit_const(&ty).unwrap(), "Vec::<(u8)>::WIT");
}

#[test]
fn type_wit_const_rejects_references() {
    let ty = TypeAst::Reference(Box::new(named("str")));
    assert_eq!(make_type_wit_const(&ty), Err(CodegenError::ReferenceNotAllowed));
    let nested = path(vec![generic("Option", vec![TypeAst::Reference(Box::new(named("str")))])]);
    assert_eq!(make_type_wit_const(&nested), Err(CodegenError::ReferenceNotAllowed));
}

#[test]
fn type_wit_const_rejects_other_types() {
    assert_eq!(make_type_wit_const(&TypeAst::Slice(Box::new(named("u8")))), Err(CodegenError::UnsupportedType));
    assert_eq!(
        make_type_wit_const(&TypeAst::Path { qself: true, segments: vec![seg("Item")] }),
        Err(CodegenError::UnsupportedType)
    );
    assert_eq!(make_type_wit_const(&TypeAst::Other), Err(CodegenError::UnsupportedType));
}

#[test]
fn type_wit_const_rejects_non_type_arguments_first_error_wins() {
    let ty = path(vec![PathSegmentAst {
        ident: "Cow".to_string(),
        arguments: PathArgumentsAst::AngleBracketed(vec![
            GenericArgumentAst::Other,
            GenericArgumentAst::Type(TypeAst::Reference(Box::new(named("str")))),
        ]),
    }]);
    assert_eq!(make_type_wit_const(&ty), Err(CodegenError::UnsupportedGenericArgument));
}

#[test]
fn distributed_slice_registration() {
    let text = make_distributed_slice("BidderId");
    assert_eq!(
        text,
        "#[distributed_slice(crate::ALL_WIT_TYPES_FOR_GOLEM)]\nstatic BIDDERID_WIT: fn() -> &'static ::golem_rust::WitMeta = || BidderId::WIT;\n"
    );
}

#[test]
fn struct_expansion() {
    let s = StructContainer {
        ident: "SimpleStruct".to_string(),
        fields: vec![
            StructField { ty: named("String"), ident: Some("name".to_string()), rename: None },
            StructField { ty: named("u16"), ident: Some("age".to_string()), rename: None },
        ],
    };
    let code = golem_rust::golem::structure::expand(&s).unwrap();
    let expected = "impl ::golem_rust::HasWitMetadata for SimpleStruct { const IDENT: &'static str = \"SimpleStruct\"; const WIT: &'static ::golem_rust::WitMeta = &::golem_rust::WitMeta::Record(::golem_rust::RecordMeta { name: ::golem_rust::Ident(\"SimpleStruct\"), fields: &[(\"name\", String::WIT), (\"age\", u16::WIT)], }); } #[distributed_slice(crate::ALL_WIT_TYPES_FOR_GOLEM)] static SIMPLESTRUCT_WIT: fn() -> &'static ::golem_rust::WitMeta = || SimpleStruct::WIT;";
    assert_eq!(tokens(&code), tokens(expected));
}

#[test]
fn struct_expansion_reports_field_error() {
    let s = StructContainer {
        ident: "S".to_string(),
        fields: vec![StructField { ty: TypeAst::Reference(Box::new(named("str"))), ident: Some("a".to_string()), rename: None }],
    };
    assert_eq!(golem_rust::golem::structure::expand(&s).unwrap_err(), CodegenError::ReferenceNotAllowed);
}

#[test]
fn enum_expansion() {
    let e = EnumContainer {
        ident: "Color".to_string(),
        variants: vec![EnumVariant { ident: "Red".to_string() }, EnumVariant { ident: "BlueGreen".to_string() }],
    };
    let code = golem_rust::golem::enumeration::expand(&e);
    let expected = "impl ::golem_rust::HasWitMetadata for Color { const IDENT: &'static str = \"Color\"; const WIT: &'static ::golem_rust::WitMeta = &::golem_rust::WitMeta::Enum(::golem_rust::EnumMeta { name: ::golem_rust::Ident(\"Color\"), variants: &[::golem_rust::Ident(\"Red\"), ::golem_rust::Ident(\"BlueGreen\")], }); } #[distributed_slice(crate::ALL_WIT_TYPES_FOR_GOLEM)] static COLOR_WIT: fn() -> &'static ::golem_rust::WitMeta = || Color::WIT;";
    assert_eq!(tokens(&code), tokens(expected));
}

#[test]
fn variant_expansion() {
    let e = variant::EnumContainer {
        ident: "VariantTest".to_string(),
        variants: vec![
            variant::EnumVariant { ident: "V1".to_string(), fields: vec![variant::FieldItem { ty: named("String") }] },
            variant::EnumVariant {
                ident: "V2".to_string(),
                fields: vec![variant::FieldItem { ty: path(vec![generic("Vec", vec![named("String")])]) }],
            },
        ],
    };
    let code = variant::expand(&e).unwrap();
    let expected = "impl ::golem_rust::HasWitMetadata for VariantTest { const IDENT: &'static str = \"VariantTest\"; const WIT: &'static ::golem_rust::WitMeta = &::golem_rust::WitMeta::Variant(::golem_rust::VariantMeta { name: ::golem_rust::Ident(\"VariantTest\"), fields: &[::golem_rust::VariantOption { name: ::golem_rust::Ident(\"V1\"), fields: &[String::WIT], }, ::golem_rust::VariantOption { name: ::golem_rust::Ident(\"V2\"), fields: &[Vec::<String>::WIT], }], }); } #[distributed_slice(crate::ALL_WIT_TYPES_FOR_GOLEM)] static VARIANTTEST_WIT: fn() -> &'static ::golem_rust::WitMeta = || VariantTest::WIT;";
    assert_eq!(tokens(&code), tokens(expected));
}

fn typed(name: &str, ty: TypeAst) -> FnArgAst {
    FnArgAst::Typed(PatAst::Ident(name.to_string()), ty)
}

#[test]
fn global_function_expansion() {
    let sig = SignatureAst {
        ident: "create_bidder".to_string(),
        inputs: vec![
            typed("full_name", named("String")),
            typed("address", path(vec![generic("Vec", vec![named("String")])])),
            typed("age", path(vec![generic("Option", vec![named("u16")])])),
        ],
        output: Some(named("BidderId")),
    };
    let code = implement_global_function(&sig).unwrap();
    let expected = "struct CreateBidder {} impl HasWitMetadata for CreateBidder { const IDENT: &'static str = \"create_bidder\"; const WIT: &'static WitMeta = &WitMeta::Function(FunctionMeta { name: Ident(\"create_bidder\"), args: &[(\"full_name\", String::WIT), (\"address\", Vec::<String>::WIT), (\"age\", Option::<u16>::WIT)], result: BidderId::WIT, }); } #[distributed_slice(crate::ALL_WIT_TYPES_FOR_GOLEM)] static CREATEBIDDER_WIT: fn() -> &'static ::golem_rust::WitMeta = || CreateBidder::WIT;";
    assert_eq!(tokens(&code), tokens(expected));
}

#[test]
fn global_function_code_uses_the_given_struct_name() {
    let sig = SignatureAst {
        ident: "get_address".to_string(),
        inputs: vec![typed("id", named("u64"))],
        output: Some(named("Address")),
    };
    let code = global_function_code(&sig, "Lookup").unwrap();
    let expected = "struct Lookup {} impl HasWitMetadata for Lookup { const IDENT: &'static str = \"get_address\"; const WIT: &'static WitMeta = &WitMeta::Function(FunctionMeta { name: Ident(\"get_address\"), args: &[(\"id\", u64::WIT)], result: Address::WIT, }); } #[distributed_slice(crate::ALL_WIT_TYPES_FOR_GOLEM)] static LOOKUP_WIT: fn() -> &'static ::golem_rust::WitMeta = || Lookup::WIT;";
    assert_eq!(tokens(&code), tokens(expected));
    let no_return = SignatureAst { ident: "f".to_string(), inputs: vec![], output: None };
    assert_eq!(global_function_code(&no_return, "F").unwrap_err(), CodegenError::MissingReturnType);
}

#[test]
fn global_function_errors() {
    let no_return = SignatureAst { ident: "f".to_string(), inputs: vec![], output: None };
    assert_eq!(implement_global_function(&no_return).unwrap_err(), CodegenError::MissingReturnType);
    let receiver = SignatureAst { ident: "f".to_string(), inputs: vec![FnArgAst::Receiver], output: Some(named("u8")) };
    assert_eq!(implement_global_function(&receiver).unwrap_err(), CodegenError::ReceiverArgument);
    let pattern = SignatureAst {
        ident: "f".to_string(),
        inputs: vec![FnArgAst::Typed(PatAst::Other, named("u8"))],
        output: Some(named("u8")),
    };
    assert_eq!(implement_global_function(&pattern).unwrap_err(), CodegenError::UnexpectedPattern);
    // The return type is looked at before the parameters.
    let both = SignatureAst {
        ident: "f".to_string(),
        inputs: vec![FnArgAst::Receiver],
        output: Some(TypeAst::Reference(Box::new(named("str")))),
    };
    assert_eq!(implement_global_function(&both).unwrap_err(), CodegenError::ReferenceNotAllowed);
}

#[test]
fn codegen_error_messages() {
    assert_eq!(CodegenError::MissingReturnType.message(), "Function needs to have explicit return type");
    assert_eq!(CodegenError::ReceiverArgument.message(), "Function needs to have explicit return type");
    assert_eq!(CodegenError::UnexpectedPattern.message(), "Unexpected pattern");
    assert_eq!(
        CodegenError::ReferenceNotAllowed.message(),
        "Unsupported type: References are not allowed. All data must be owned"
    );
}
