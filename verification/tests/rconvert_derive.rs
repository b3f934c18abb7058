use miniextendr_macros::newtype_derive::{parse_newtype, DataShape, NewtypeError};
use miniextendr_macros::rconvert_derive::{newtype_error_message, parse_opts, RConvertError, RConvertOption, RConvertOpts};

/// The shape of a derive input.
fn shape(src: &str) -> DataShape {
    let input: syn::DeriveInput = syn::parse_str(src).unwrap();
    match &input.data {
        syn::Data::Struct(s) => match &s.fields {
            syn::Fields::Named(f) => {
                DataShape::Named(f.named.iter().map(|x| x.ident.as_ref().unwrap().to_string()).collect())
            }
            syn::Fields::Unnamed(f) => DataShape::Unnamed(f.unnamed.len()),
            syn::Fields::Unit => DataShape::Unit,
        },
        syn::Data::Enum(_) => DataShape::Enum,
        syn::Data::Union(_) => DataShape::Union,
    }
}

#[test]
fn newtypes_are_recognised() {
    assert_eq!(parse_newtype(&shape("struct Id(u32);")).ok().unwrap().named_field, None);
    assert_eq!(
        parse_newtype(&shape("struct Id { inner: u32 }")).ok().unwrap().named_field,
        Some("inner".to_string())
    );
    assert_eq!(parse_newtype(&shape("struct Pair(u32, u32);")).err(), Some(NewtypeError::NotOneField));
    assert_eq!(parse_newtype(&shape("struct Unit;")).err(), Some(NewtypeError::NotOneField));
    assert_eq!(parse_newtype(&shape("enum E { A }")).err(), Some(NewtypeError::NotAStruct));
    assert_eq!(
        NewtypeError::NotAStruct.message(),
        "this derive only works on single-field newtype structs"
    );
    assert_eq!(
        newtype_error_message(NewtypeError::NotOneField),
        "#[derive(RConvert)] requires a struct with exactly one field"
    );
}

#[test]
fn rconvert_options() {
    assert_eq!(parse_opts(&[]).ok(), Some(RConvertOpts { emit_from: true, emit_into: true }));
    assert_eq!(
        parse_opts(&[RConvertOption::Forward, RConvertOption::Into(Ok(false))]).ok(),
        Some(RConvertOpts { emit_from: true, emit_into: false })
    );
    assert_eq!(
        parse_opts(&[RConvertOption::From(Ok(false)), RConvertOption::From(Ok(true))]).ok(),
        Some(RConvertOpts { emit_from: true, emit_into: true })
    );
    let both_off = parse_opts(&[RConvertOption::From(Ok(false)), RConvertOption::Into(Ok(false))]);
    match both_off {
        Err(e) => {
            assert!(matches!(e, RConvertError::NothingEnabled));
            assert_eq!(e.message(), "#[rconvert]: at least one of `from` / `into` must remain enabled");
        }
        Ok(o) => panic!("accepted: {o:?}"),
    }
    match parse_opts(&[RConvertOption::Unknown, RConvertOption::From(Err("bad".to_string()))]) {
        Err(e) => assert_eq!(
            e.message(),
            "unknown #[rconvert] option; expected `forward`, `from = <bool>`, or `into = <bool>`"
        ),
        Ok(o) => panic!("accepted: {o:?}"),
    }
    match parse_opts(&[RConvertOption::Into(Err("expected boolean literal".to_string()))]) {
        Err(e) => assert_eq!(e.message(), "expected boolean literal"),
        Ok(o) => panic!("accepted: {o:?}"),
    }
}
