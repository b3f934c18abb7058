use miniextendr_macros::struct_enum_dispatch::{
    dispatch_enum, dispatch_struct, field_count, is_fieldless_enum, parse_attrs, strip_miniextendr_attrs,
    AttrError, DispatchError, EnumDispatch, MetaEntry, StructDispatch, StructEnumAttrs, StructFields,
};
use syn::parse::Parser;

/// The entries of `#[miniextendr(<src>)]`, as `syn::Meta` reads them.
fn entries(src: &str) -> Vec<MetaEntry> {
    let metas = syn::punctuated::Punctuated::<syn::Meta, syn::token::Comma>::parse_terminated
        .parse_str(src)
        .unwrap();
    metas
        .iter()
        .map(|m| match m {
            syn::Meta::Path(p) => MetaEntry::Path(p.get_ident().map(|i| i.to_string())),
            syn::Meta::NameValue(nv) => MetaEntry::NameValue {
                key: nv.path.get_ident().map(|i| i.to_string()),
                value: match &nv.value {
                    syn::Expr::Lit(syn::ExprLit { lit: syn::Lit::Str(s), .. }) => Some(s.value()),
                    _ => None,
                },
            },
            syn::Meta::List(_) => MetaEntry::List,
        })
        .collect()
}

fn attrs(src: &str) -> StructEnumAttrs {
    match parse_attrs(&entries(src)) {
        Ok(a) => a,
        Err(e) => panic!("refused: {}", e.message()),
    }
}

fn attr_error(src: &str) -> String {
    match parse_attrs(&entries(src)) {
        Ok(_) => panic!("accepted `{src}`"),
        Err(e) => e.message(),
    }
}

fn dispatch(src: &str, n_fields: usize) -> Result<StructDispatch, String> {
    dispatch_struct(&attrs(src), n_fields).map_err(|e| e.message())
}

#[test]
fn attrs_are_read() {
    let a = attrs("list, class = \"Foo\", base = \"Integer\", prefer = \"native\", pkg = \"x\", extra(1), factor");
    assert!(a.list && a.factor && !a.dataframe && !a.externalptr && !a.match_arg);
    assert_eq!(a.class.as_deref(), Some("Foo"));
    assert_eq!(a.base.as_deref(), Some("Integer"));
    assert_eq!(a.prefer.as_deref(), Some("native"));
    // The last value wins; a value that is not a string is ignored.
    let a = attrs("class = \"A\", class = \"B\", base = 3");
    assert_eq!(a.class.as_deref(), Some("B"));
    assert_eq!(a.base, None);
    let a = attrs("");
    assert!(!a.list && a.class.is_none() && a.prefer.is_none());
}

#[test]
fn attrs_errors() {
    assert_eq!(
        attr_error("lsit"),
        "unknown #[miniextendr] attribute `lsit`; expected one of: list, dataframe, externalptr, match_arg, factor, prefer, class, base"
    );
    assert_eq!(
        attr_error("klass = \"Foo\""),
        "unknown #[miniextendr] attribute `klass`; expected one of: class, base, prefer"
    );
    assert_eq!(attr_error("a::b"), "expected identifier");
    assert!(matches!(parse_attrs(&entries("list, a::b, bogus")), Err(AttrError::ExpectedIdentifier)));
}

#[test]
fn disambiguation_table() {
    assert_eq!(dispatch("", 1), Ok(StructDispatch::Altrep));
    assert_eq!(dispatch("externalptr", 1), Ok(StructDispatch::ExternalPtr { native: false }));
    assert_eq!(dispatch("list", 1), Ok(StructDispatch::List));
    assert_eq!(dispatch("class = \"C\", base = \"Integer\"", 1), Ok(StructDispatch::Altrep));
    assert_eq!(dispatch("", 3), Ok(StructDispatch::ExternalPtr { native: false }));
    assert_eq!(dispatch("", 0), Ok(StructDispatch::ExternalPtr { native: false }));
    assert_eq!(dispatch("list", 3), Ok(StructDispatch::List));
    assert_eq!(dispatch("dataframe", 3), Ok(StructDispatch::DataFrame));
    assert_eq!(dispatch("prefer = \"list\"", 1), Ok(StructDispatch::List));
    assert_eq!(dispatch("prefer = \"dataframe\"", 2), Ok(StructDispatch::DataFrame));
    assert_eq!(dispatch("prefer = \"externalptr\"", 1), Ok(StructDispatch::ExternalPtr { native: false }));
    assert_eq!(dispatch("prefer = \"native\"", 1), Ok(StructDispatch::ExternalPtr { native: true }));
    // An explicit mode wins over the preference.
    assert_eq!(dispatch("list, prefer = \"dataframe\"", 2), Ok(StructDispatch::List));
}

#[test]
fn dispatch_errors() {
    assert_eq!(
        dispatch("list, class = \"C\"", 1),
        Err("cannot combine ALTREP attributes (class, base) with mode attributes (list, dataframe, externalptr)".to_string())
    );
    assert_eq!(
        dispatch("list, dataframe", 2),
        Err("only one of `list`, `dataframe`, `externalptr` can be specified".to_string())
    );
    assert_eq!(
        dispatch("prefer = \"vector\"", 1),
        Err("unknown prefer value `vector`; expected one of: externalptr, list, dataframe, native".to_string())
    );
    // An unknown preference with class/base: checked after the ALTREP path.
    assert_eq!(
        dispatch("prefer = \"vector\", class = \"C\"", 2),
        Err("unknown prefer value `vector`; expected one of: externalptr, list, dataframe, native".to_string())
    );
}

#[test]
fn enum_dispatch() {
    let none = attrs("");
    assert_eq!(dispatch_enum(&none, true).ok(), Some(EnumDispatch::Factor));
    assert_eq!(dispatch_enum(&attrs("factor"), true).ok(), Some(EnumDispatch::Factor));
    assert_eq!(dispatch_enum(&attrs("match_arg"), true).ok(), Some(EnumDispatch::MatchArg));
    match dispatch_enum(&none, false) {
        Err(e) => {
            assert!(matches!(e, DispatchError::EnumNotFieldless));
            assert_eq!(e.message(), "#[miniextendr] on enums requires all variants to be fieldless (C-style)");
        }
        Ok(d) => panic!("accepted: {d:?}"),
    }
}

#[test]
fn item_shapes() {
    assert_eq!(field_count(StructFields::Named(2)), 2);
    assert_eq!(field_count(StructFields::Unnamed(1)), 1);
    assert_eq!(field_count(StructFields::Unit), 0);
    assert!(is_fieldless_enum(&[true, true]));
    assert!(is_fieldless_enum(&[]));
    assert!(!is_fieldless_enum(&[true, false]));
    let paths = vec![Some("derive".to_string()), Some("miniextendr".to_string()), None, Some("doc".to_string())];
    assert_eq!(strip_miniextendr_attrs(&paths), vec![0, 2, 3]);
}
