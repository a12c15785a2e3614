use golem_rust::macroutils::{self, HasWitMetadata};
use golem_rust::trial::{create_bidder, get_address, Color};
use golem_rust::wit::model::{HasWitMeta, PrimitiveMeta, WitMeta};

#[test]
fn primitive_references() {
    assert!(matches!(<isize as HasWitMeta>::wit_meta(), WitMeta::Primitive(PrimitiveMeta::S64)));
    assert!(matches!(<usize as HasWitMeta>::wit_meta(), WitMeta::Primitive(PrimitiveMeta::U64)));
    assert!(matches!(<String as HasWitMeta>::wit_meta(), WitMeta::Primitive(PrimitiveMeta::String)));
}

#[test]
fn composite_references() {
    match <Result<Option<u8>, String> as HasWitMeta>::wit_meta() {
        WitMeta::Result(r) => {
            assert!(matches!(*r.ok, WitMeta::Option(ref inner) if matches!(**inner, WitMeta::Primitive(PrimitiveMeta::U8))));
            assert!(matches!(*r.err, WitMeta::Primitive(PrimitiveMeta::String)));
        }
        _ => panic!("expected a result"),
    }
    match <(bool, Vec<char>) as HasWitMeta>::wit_meta() {
        WitMeta::Tuple(t) => {
            assert_eq!(t.items.len(), 2);
            assert!(matches!(t.items[0], WitMeta::Primitive(PrimitiveMeta::Bool)));
            assert!(matches!(t.items[1], WitMeta::List(_)));
        }
        _ => panic!("expected a tuple"),
    }
}

#[test]
fn metadata_identifiers() {
    assert_eq!(<i8 as HasWitMetadata>::ident(), "s8");
    assert_eq!(<String as HasWitMetadata>::ident(), "String");
    assert_eq!(<Vec<u8> as HasWitMetadata>::ident(), "List");
    assert_eq!(<(u8, u8) as HasWitMetadata>::ident(), "Tuple");
    assert_eq!(<Option<u8> as HasWitMetadata>::ident(), "Option");
    assert!(matches!(<u32 as HasWitMetadata>::wit(), macroutils::WitMeta::Primitive(macroutils::PrimitiveMeta::U32)));
}

#[test]
fn trial_functions() {
    let b = create_bidder("Jaro".to_string(), vec!["street".to_string()], Some(32));
    assert!(matches!(b.bidder_id, Err(ref s) if s == "hello"));
    assert!(!b.verified);
    let a = get_address();
    assert_eq!(a.street.as_deref(), Some(""));
    assert!(matches!(a.city, Some(Ok(ref c)) if c.is_empty()));
    assert_eq!(a.state, "");
    assert_eq!(a.zip, "");
    assert_eq!(a.color, Color::Blue);
}
