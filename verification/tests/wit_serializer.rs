use golem_rust::wit::into_wit::{WitSerializer, export_wit_interface, into_wit, primitive_wit, try_export_wit_interface, try_into_wit};
use golem_rust::wit::model::{
    EnumMeta, FlagMeta, FunctionMeta, Ident, PrimitiveMeta, RecordMeta, ResultMeta, TupleMeta, VariantMeta,
    VariantOption, WitExport, WitMeta,
};

fn ident(s: &str) -> Ident {
    Ident(s.to_string())
}

fn prim(p: PrimitiveMeta) -> WitMeta {
    WitMeta::Primitive(p)
}

fn color_enum() -> WitExport {
    WitExport::Enum(EnumMeta { name: ident("Color"), variants: vec![ident("Red"), ident("BlueGreen")] })
}

fn write(e: &WitExport) -> String {
    into_wit(e).unwrap()
}

#[test]
fn record_is_written_with_indented_fields() {
    let e = WitExport::Record(RecordMeta {
        name: ident("BidderId"),
        fields: vec![
            ("bidder_id".to_string(), prim(PrimitiveMeta::String)),
            ("verified".to_string(), prim(PrimitiveMeta::Bool)),
        ],
    });
    assert_eq!(write(&e), "record bidder-id {\n   bidder_id: string\n   verified: bool\n}\n");
}

#[test]
fn empty_record() {
    let e = WitExport::Record(RecordMeta { name: ident("Empty"), fields: vec![] });
    assert_eq!(write(&e), "record empty {\n\n}\n");
}

#[test]
fn variant_cases_with_and_without_payload() {
    let e = WitExport::Variant(VariantMeta {
        name: ident("BidResult"),
        fields: vec![
            VariantOption { name: ident("Success"), fields: vec![] },
            VariantOption { name: ident("Failure"), fields: vec![prim(PrimitiveMeta::String)] },
        ],
    });
    assert_eq!(write(&e), "variant bid-result {\n   success,\n   failure(string)\n}\n");
}

#[test]
fn enum_cases_are_kebab_cased() {
    assert_eq!(write(&color_enum()), "enum color {\n   red,\n   blue-green\n}\n");
}

#[test]
fn function_signature() {
    let bidder = WitMeta::Record(RecordMeta { name: ident("BidderId"), fields: vec![] });
    let e = WitExport::Function(FunctionMeta {
        name: ident("create_bidder"),
        args: vec![
            ("full_name".to_string(), prim(PrimitiveMeta::String)),
            ("address".to_string(), WitMeta::List(Box::new(prim(PrimitiveMeta::String)))),
            ("age".to_string(), WitMeta::Option(Box::new(prim(PrimitiveMeta::U16)))),
        ],
        result: Box::new(bidder),
    });
    assert_eq!(
        write(&e),
        "create-bidder: func(full-name: string, address: list<string>, age: option<u16>) -> bidder-id\n"
    );
}

#[test]
fn result_and_tuple_references() {
    let result = WitMeta::Result(ResultMeta {
        ok: Box::new(prim(PrimitiveMeta::U8)),
        err: Box::new(prim(PrimitiveMeta::String)),
    });
    let tuple = WitMeta::Tuple(TupleMeta { items: vec![prim(PrimitiveMeta::S32), prim(PrimitiveMeta::U8)] });
    let e = WitExport::Function(FunctionMeta {
        name: ident("f"),
        args: vec![("t".to_string(), tuple)],
        result: Box::new(result),
    });
    // A tuple is written without a closing `>`.
    assert_eq!(write(&e), "f: func(t: tuple<s32, u8>) -> result<u8, string>\n");
}

#[test]
fn kebab_case_rules() {
    let f = |name: &str| {
        let e = WitExport::Enum(EnumMeta { name: ident(name), variants: vec![] });
        let text = write(&e);
        let start = "enum ".len();
        let end = text.find(" {").unwrap();
        text[start..end].to_string()
    };
    assert_eq!(f("get_address"), "get-address");
    assert_eq!(f("BidderID"), "bidder-id");
    assert_eq!(f("_HTTPServer_"), "httpserver");
    assert_eq!(f("aB"), "a-b");
    assert_eq!(f("__"), "");
    assert_eq!(f("already-kebab"), "already-kebab");
    assert_eq!(f("Über"), "über");
}

#[test]
fn primitives() {
    assert_eq!(primitive_wit(&PrimitiveMeta::S64), "s64");
    assert_eq!(primitive_wit(&PrimitiveMeta::F32), "f32");
    assert_eq!(primitive_wit(&PrimitiveMeta::String), "string");
    assert_eq!(primitive_wit(&PrimitiveMeta::Char), "char");
}

#[test]
fn interface_with_world() {
    let text = export_wit_interface("api", "test-worker", &vec![color_enum()]).unwrap();
    assert_eq!(
        text,
        "interface api {\n   enum color {\n      red,\n      blue-green\n   }\n\n\n}\n\nworld test-worker {\n   export api;\n}"
    );
}

#[test]
fn interface_without_exports() {
    let text = export_wit_interface("api", "w", &vec![]).unwrap();
    assert_eq!(text, "interface api {\n\n}\n\nworld w {\n   export api;\n}");
}

#[test]
fn flags_and_unwritable_names_are_refused() {
    let flag = WitExport::Flag(FlagMeta { name: ident("Perms"), variants: vec![ident("Read")] });
    assert!(try_into_wit(&flag).is_none());
    let cafe = WitExport::Enum(EnumMeta { name: ident("café"), variants: vec![] });
    assert!(try_into_wit(&cafe).is_none());
    assert!(try_export_wit_interface("api", "w", &vec![color_enum(), cafe]).is_none());
    assert_eq!(try_into_wit(&color_enum()).unwrap().unwrap(), write(&color_enum()));
}

#[test]
fn export_name_is_the_declared_name() {
    assert_eq!(color_enum().name(), "Color");
    let f = WitExport::Flag(FlagMeta { name: ident("Perms"), variants: vec![] });
    assert_eq!(f.name(), "Perms");
}

#[test]
fn exports_in_two_batches_concatenate() {
    let a = export_wit_interface("i", "w", &vec![color_enum()]).unwrap();
    let both = export_wit_interface("i", "w", &vec![color_enum(), color_enum()]).unwrap();
    let body = "   enum color {\n      red,\n      blue-green\n   }\n\n";
    assert!(a.contains(body));
    assert!(both.contains(&format!("{body}{body}")));
}

#[test]
fn variant_case_with_two_payload_types() {
    let e = WitExport::Variant(VariantMeta {
        name: ident("VariantTest"),
        fields: vec![
            VariantOption {
                name: ident("V1"),
                fields: vec![prim(PrimitiveMeta::String), prim(PrimitiveMeta::U32)],
            },
            VariantOption { name: ident("V2"), fields: vec![] },
        ],
    });
    assert_eq!(write(&e), "variant variant-test {\n   v1(string, u32),\n   v2\n}\n");
}

#[test]
fn kebab_case_written_twice_is_unchanged() {
    let once = WitExport::Enum(EnumMeta {
        name: ident("AuctionService"),
        variants: vec![ident("_HTTPRequest_"), ident("bid_amount")],
    });
    assert_eq!(write(&once), "enum auction-service {\n   httprequest,\n   bid-amount\n}\n");
    let twice = WitExport::Enum(EnumMeta {
        name: ident("auction-service"),
        variants: vec![ident("httprequest"), ident("bid-amount")],
    });
    assert_eq!(write(&twice), write(&once));
}

#[test]
fn serializer_only_appends_and_keeps_its_level() {
    let mut w = WitSerializer::new("// header\n".to_string(), 1);
    assert!(w.into_wit(&color_enum()).is_ok());
    assert_eq!(w.level, 1);
    assert_eq!(w.writer, "// header\n   enum color {\n      red,\n      blue-green\n   }\n");
}

#[test]
fn dec_indent_undoes_inc_indent() {
    let mut w = WitSerializer::new("x".to_string(), 3);
    w.inc_indent();
    assert_eq!(w.level, 4);
    w.dec_indent();
    assert_eq!(w.level, 3);
    assert_eq!(w.writer, "x");
}

#[test]
fn write_kebab_twice_on_ascii_is_unchanged() {
    let mut w1 = WitSerializer::new(String::new(), 0);
    assert!(w1.write_kebab("_HTTPRequest_handler_").is_ok());
    let k = w1.writer.clone();
    assert_eq!(k, "httprequest-handler");
    let mut w2 = WitSerializer::new(String::new(), 0);
    assert!(w2.write_kebab(&k).is_ok());
    assert_eq!(w2.writer, k);
}

#[test]
fn characters_with_an_ascii_low_byte_are_written_as_that_byte() {
    // U+0161 has the low byte 0x61, 'a'.
    let e = WitExport::Enum(EnumMeta { name: ident("\u{161}X"), variants: vec![ident("\u{161}")] });
    assert_eq!(write(&e), "enum a-x {\n   a\n}\n");
    // U+00F3 has the low byte 0xF3, which is not text on its own.
    let bad = WitExport::Enum(EnumMeta { name: ident("\u{f3}"), variants: vec![] });
    assert!(try_into_wit(&bad).is_none());
}
