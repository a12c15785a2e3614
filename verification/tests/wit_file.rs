use golem_rust::wit_file::{is_wit_file_name, wit_file_name, WitFileAttr, WitFileNameError};

#[test]
fn default_file_name() {
    assert_eq!(wit_file_name(&WitFileAttr::NoLiteral).unwrap(), "generated.wit");
}

#[test]
fn extension_is_added_once() {
    assert_eq!(wit_file_name(&WitFileAttr::Str("auction_app".to_string())).unwrap(), "auction_app.wit");
    assert_eq!(wit_file_name(&WitFileAttr::Str("auction_app.wit".to_string())).unwrap(), "auction_app.wit");
    assert_eq!(wit_file_name(&WitFileAttr::Str("".to_string())).unwrap(), ".wit");
    assert_eq!(wit_file_name(&WitFileAttr::Str("a.WIT".to_string())).unwrap(), "a.WIT.wit");
}

#[test]
fn non_string_literal_is_an_error() {
    let e = wit_file_name(&WitFileAttr::OtherLiteral).unwrap_err();
    assert_eq!(e, WitFileNameError::NotAString);
    assert!(e.message().starts_with("If you want to specify name of the generated file"));
}

#[test]
fn wit_suffix_detection() {
    assert!(is_wit_file_name("x.wit"));
    assert!(is_wit_file_name(".wit"));
    assert!(!is_wit_file_name("wit"));
    assert!(!is_wit_file_name("x.wat"));
}
