use golem_rust::syntax::{
    EnumAst, FieldAst, FieldsAst, FnArgAst, GenericArgumentAst, ItemAst, ModuleAst, PatAst, PathArgumentsAst,
    PathSegmentAst, SignatureAst, StructAst, TraitAst, TraitItemAst, TypeAliasAst, TypeAst, VariantAst,
};
use golem_rust::wit_gen::{
    check_unsupported_identifiers, convert_rust_types_to_wit_types, extract_return_type, pascal_case_to_kebab_case,
    pat_type_to_param, resolve_type, try_witfile_content, witfile_content,
};

fn seg(name: &str) -> PathSegmentAst {
    PathSegmentAst { ident: name.to_string(), arguments: PathArgumentsAst::Plain }
}

fn generic(name: &str, args: Vec<TypeAst>) -> TypeAst {
    TypeAst::Path {
        qself: false,
        segments: vec![PathSegmentAst {
            ident: name.to_string(),
            arguments: PathArgumentsAst::AngleBracketed(args.into_iter().map(GenericArgumentAst::Type).collect()),
        }],
    }
}

fn named(name: &str) -> TypeAst {
    TypeAst::Path { qself: false, segments: vec![seg(name)] }
}

fn field(name: &str, ty: TypeAst) -> FieldAst {
    FieldAst { ident: Some(name.to_string()), ty }
}

fn param(name: &str, ty: TypeAst) -> FnArgAst {
    FnArgAst::Typed(PatAst::Ident(name.to_string()), ty)
}

fn function(name: &str, inputs: Vec<FnArgAst>, output: Option<TypeAst>) -> TraitItemAst {
    TraitItemAst::Fn(SignatureAst { ident: name.to_string(), inputs, output })
}

#[test]
fn pascal_case_becomes_kebab_case() {
    assert_eq!(pascal_case_to_kebab_case("AuctionService"), "auction-service");
    assert_eq!(pascal_case_to_kebab_case("HTTPServer"), "h-t-t-p-server");
    assert_eq!(pascal_case_to_kebab_case("x"), "x");
}

#[test]
fn rust_primitives_become_wit_primitives() {
    assert_eq!(convert_rust_types_to_wit_types("i8"), "s8");
    assert_eq!(convert_rust_types_to_wit_types("isize"), "s64");
    assert_eq!(convert_rust_types_to_wit_types("usize"), "u64");
    assert_eq!(convert_rust_types_to_wit_types("f32"), "float32");
    assert_eq!(convert_rust_types_to_wit_types("f64"), "float64");
    assert_eq!(convert_rust_types_to_wit_types("String"), "string");
    assert_eq!(convert_rust_types_to_wit_types("BidderId"), "bidder-id");
}

#[test]
fn types_resolve_to_wit() {
    assert_eq!(resolve_type(&generic("Vec", vec![named("u8")])), "list<u8>");
    assert_eq!(resolve_type(&generic("Box", vec![named("AuctionId")])), "auction-id");
    assert_eq!(resolve_type(&generic("Option", vec![named("AuctionId")])), "option<auction-id>");
    assert_eq!(resolve_type(&generic("Result", vec![named("IpAddrEmpty"), named("String")])), "result<ip-addr-empty, string>");
    assert_eq!(resolve_type(&TypeAst::Slice(Box::new(named("String")))), "list<string>");
    assert_eq!(resolve_type(&TypeAst::Tuple(vec![named("u8"), named("bool")])), "tuple<u8, bool>");
    assert_eq!(resolve_type(&TypeAst::Tuple(vec![])), "");
    assert_eq!(resolve_type(&TypeAst::Reference(Box::new(named("str")))), "");
    let full = TypeAst::Path {
        qself: false,
        segments: vec![
            seg("std"),
            seg("result"),
            PathSegmentAst {
                ident: "Result".to_string(),
                arguments: PathArgumentsAst::AngleBracketed(vec![
                    GenericArgumentAst::Type(named("IpAddrEmpty")),
                    GenericArgumentAst::Type(named("String")),
                ]),
            },
        ],
    };
    assert_eq!(resolve_type(&full), "result<ip-addr-empty, string>");
}

#[test]
fn params_and_return_types() {
    assert_eq!(pat_type_to_param(&PatAst::Ident("full_name".to_string()), &named("String")), "full-name: string");
    assert_eq!(extract_return_type(&None), "");
    assert_eq!(extract_return_type(&Some(named("u16"))), "u16");
}

#[test]
fn wit_keywords_are_unsupported_record_names() {
    assert!(!check_unsupported_identifiers("option"));
    assert!(!check_unsupported_identifiers("result"));
    assert!(check_unsupported_identifiers("options"));
}

fn auction_app() -> ModuleAst {
    let items = vec![
        ItemAst::Struct(StructAst { ident: "BidderId".to_string(), fields: vec![field("bidder_id", named("String"))] }),
        ItemAst::Struct(StructAst { ident: "AuctionId".to_string(), fields: vec![field("auction_id", named("String"))] }),
        ItemAst::Struct(StructAst {
            ident: "Auction".to_string(),
            fields: vec![
                field("auction_id", generic("Option", vec![named("AuctionId")])),
                field("name", named("String")),
                field("description", named("String")),
                field("starting_price", named("f32")),
                field("deadline", named("Deadline")),
            ],
        }),
        ItemAst::Enum(EnumAst {
            ident: "BidResult".to_string(),
            variants: vec![
                VariantAst { ident: "Failure".to_string(), fields: FieldsAst::Unnamed(vec![FieldAst { ident: None, ty: named("String") }]) },
                VariantAst { ident: "Success".to_string(), fields: FieldsAst::Unit },
            ],
        }),
        ItemAst::Type(TypeAliasAst { ident: "Deadline".to_string(), ty: named("u64") }),
        ItemAst::Trait(TraitAst {
            ident: "AuctionService".to_string(),
            items: vec![
                function("initialize", vec![param("auction", named("Auction"))], None),
                function("bid", vec![param("bidder_id", named("BidderId")), param("price", named("f32"))], Some(named("BidResult"))),
                function("close_auction", vec![], Some(generic("Option", vec![named("BidderId")]))),
                function("get_auctions", vec![], Some(generic("Vec", vec![named("Auction")]))),
            ],
        }),
    ];
    ModuleAst { ident: "auction_app".to_string(), items: Some(items) }
}

#[test]
fn auction_app_wit_file() {
    let text = witfile_content(&auction_app());
    let expected = [
        "package auction:app\n\ninterface api {\n",
        "\n    record bidder-id {\n        bidder-id: string,\n    }",
        "\n",
        "\n    record auction-id {\n        auction-id: string,\n    }",
        "\n",
        "\n    record auction {\n        auction-id: option<auction-id>, \n\t\tname: string, \n\t\tdescription: string, \n\t\tstarting-price: float32, \n\t\tdeadline: deadline,\n    }",
        "\n",
        "\n    variant bid-result {\n        failure(string), \n \t\tsuccess\n    }\n                ",
        "\n",
        "    type deadline = u64",
        "\n",
        "\n    initialize: func(auction: auction)\n                ",
        "\n",
        "\n    bid: func(bidder-id: bidder-id, price: float32) -> bid-result\n                ",
        "\n",
        "\n    close-auction: func() -> option<bidder-id>\n                ",
        "\n",
        "\n    get-auctions: func() -> list<auction>\n                ",
        "\n}\n\nworld golem-service {\n    export api\n}",
    ]
    .concat();
    assert_eq!(text, expected);
    assert_eq!(text.trim(), text);
}

#[test]
fn empty_struct_and_empty_module() {
    let m = ModuleAst {
        ident: "Package_Name".to_string(),
        items: Some(vec![ItemAst::Struct(StructAst { ident: "Empty".to_string(), fields: vec![] })]),
    };
    assert_eq!(
        witfile_content(&m),
        "package package:name\n\ninterface api {\n    record empty {}\n}\n\nworld golem-service {\n    export api\n}"
    );
    let none = ModuleAst { ident: "p".to_string(), items: Some(vec![]) };
    assert_eq!(witfile_content(&none), "package p\n\ninterface api {\n\n}\n\nworld golem-service {\n    export api\n}");
}

#[test]
fn unsupported_modules_are_refused() {
    let other = ModuleAst { ident: "m".to_string(), items: Some(vec![ItemAst::Other]) };
    assert!(try_witfile_content(&other).is_none());
    let no_body = ModuleAst { ident: "m".to_string(), items: None };
    assert!(try_witfile_content(&no_body).is_none());
    let keyword = ModuleAst {
        ident: "m".to_string(),
        items: Some(vec![ItemAst::Struct(StructAst { ident: "Option".to_string(), fields: vec![] })]),
    };
    assert!(try_witfile_content(&keyword).is_none());
    let receiver = ModuleAst {
        ident: "m".to_string(),
        items: Some(vec![ItemAst::Trait(TraitAst {
            ident: "S".to_string(),
            items: vec![function("f", vec![FnArgAst::Receiver], None)],
        })]),
    };
    assert!(try_witfile_content(&receiver).is_none());
    let super_path = ModuleAst {
        ident: "m".to_string(),
        items: Some(vec![ItemAst::Struct(StructAst {
            ident: "S".to_string(),
            fields: vec![field("a", TypeAst::Path { qself: false, segments: vec![seg("super"), seg("T")] })],
        })]),
    };
    assert!(try_witfile_content(&super_path).is_none());
    assert_eq!(try_witfile_content(&auction_app()).unwrap(), witfile_content(&auction_app()));
}

#[test]
fn kebab_case_of_non_ascii_names() {
    assert_eq!(pascal_case_to_kebab_case("ÄpfelBaum"), "äpfel-baum");
    // U+0130 lowercases to two characters: 'i' and a combining dot above.
    assert_eq!(pascal_case_to_kebab_case("\u{130}x"), "i\u{307}x");
    assert_eq!(pascal_case_to_kebab_case("aΣb"), "a-σb");
}
