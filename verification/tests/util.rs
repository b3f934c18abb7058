use miniextendr_macros::typed_external_macro::typed_external_names;
use miniextendr_macros::util::{attr_positions, extract_cfg_attrs, r_wrapper_raw_literal, source_location_doc};

fn paths(names: &[Option<&str>]) -> Vec<Option<String>> {
    names.iter().map(|n| n.map(|s| s.to_string())).collect()
}

#[test]
fn cfg_attributes_are_found() {
    let attrs = paths(&[Some("doc"), Some("cfg"), None, Some("cfg"), Some("cfg_attr")]);
    assert_eq!(extract_cfg_attrs(&attrs), vec![1, 3]);
    assert_eq!(attr_positions(&attrs, "cfg", false), vec![0, 2, 4]);
    assert!(extract_cfg_attrs(&[]).is_empty());
}

#[test]
fn source_location_note() {
    assert_eq!(source_location_doc(12, 0), "Generated from source location line 12, column 1.");
    assert_eq!(source_location_doc(7, 41), "Generated from source location line 7, column 42.");
}

#[test]
fn raw_literal_text() {
    assert_eq!(r_wrapper_raw_literal("f <- function() NULL"), "r#\"\nf <- function() NULL\n\"#");
    // The text is a raw string literal holding the wrapper between newlines.
    let lit: syn::LitStr = syn::parse_str(&r_wrapper_raw_literal("x")).unwrap();
    assert_eq!(lit.value(), "\nx\n");
}

/// The token text of a type, as the macro receives it.
fn type_text(src: &str) -> String {
    let t: syn::Type = syn::parse_str(src).unwrap();
    quote::ToTokens::to_token_stream(&t).to_string()
}

#[test]
fn typed_external_type_names() {
    let (name, cstr) = typed_external_names(&type_text("MyWrapper<i32>"));
    assert_eq!(name, "MyWrapper<i32>");
    assert_eq!(cstr, "MyWrapper<i32>\0");
    let (name, _) = typed_external_names(&type_text("TreeNode<String, Vec<u8>>"));
    assert_eq!(name, "TreeNode<String , Vec<u8>>");
    let (name, _) = typed_external_names("Plain");
    assert_eq!(name, "Plain");
}
