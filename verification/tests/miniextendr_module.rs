use miniextendr_macros::miniextendr_module::{
    AltrepBase, MiniextendrModule, MiniextendrModuleFunction, MiniextendrModuleImpl, MiniextendrModuleItem,
    MiniextendrModuleTraitImpl, MiniextendrModuleVctrs, ModuleError,
};
use miniextendr_macros::types::{GenericArg, Segment, SegmentArgs, TypeModel};

fn array_len(len: &syn::Expr) -> Option<usize> {
    match len {
        syn::Expr::Lit(syn::ExprLit { lit: syn::Lit::Int(n), .. }) => n.base10_parse::<usize>().ok(),
        _ => None,
    }
}

fn to_type(ty: &syn::Type) -> TypeModel {
    match ty {
        syn::Type::Path(tp) => TypeModel::Path(
            tp.path
                .segments
                .iter()
                .map(|s| Segment {
                    ident: s.ident.to_string(),
                    args: match &s.arguments {
                        syn::PathArguments::None => SegmentArgs::Bare,
                        syn::PathArguments::AngleBracketed(a) => SegmentArgs::Angle(
                            a.args
                                .iter()
                                .map(|g| match g {
                                    syn::GenericArgument::Type(t) => GenericArg::Type(to_type(t)),
                                    _ => GenericArg::Other,
                                })
                                .collect(),
                        ),
                        syn::PathArguments::Parenthesized(_) => SegmentArgs::Paren,
                    },
                })
                .collect(),
        ),
        syn::Type::Reference(r) => TypeModel::Reference(r.mutability.is_some(), Box::new(to_type(&r.elem))),
        syn::Type::Slice(s) => TypeModel::Slice(Box::new(to_type(&s.elem))),
        syn::Type::Array(a) => TypeModel::Array(Box::new(to_type(&a.elem)), array_len(&a.len)),
        syn::Type::Paren(p) => TypeModel::Paren(Box::new(to_type(&p.elem))),
        syn::Type::Group(g) => TypeModel::Group(Box::new(to_type(&g.elem))),
        syn::Type::Tuple(t) => TypeModel::Tuple(t.elems.iter().map(to_type).collect()),
        _ => TypeModel::Other,
    }
}

/// `impl <trait_path> for <ty>;`, as the module parser records it.
fn trait_impl(trait_path: &str, ty: &str) -> MiniextendrModuleTraitImpl {
    let path: syn::Path = syn::parse_str(trait_path).unwrap();
    let t: syn::Type = syn::parse_str(ty).unwrap();
    MiniextendrModuleTraitImpl {
        trait_path: path.segments.iter().map(|s| s.ident.to_string()).collect(),
        impl_type: to_type(&t),
        type_text: quote::ToTokens::to_token_stream(&t).to_string(),
    }
}

fn impl_entry(ident: &str, label: Option<&str>) -> MiniextendrModuleImpl {
    MiniextendrModuleImpl { ident: ident.to_string(), label: label.map(|l| l.to_string()) }
}

#[test]
fn trait_impl_type_names_are_sanitized() {
    assert_eq!(trait_impl("Counter", "SimpleCounter").type_name_sanitized(), "SimpleCounter");
    assert_eq!(trait_impl("AltIntegerData", "Vec<i32>").type_name_sanitized(), "Vec_i32");
    assert_eq!(trait_impl("AltIntegerData", "Range<i32>").type_name_sanitized(), "Range_i32");
    // `Vec < (i32 , i32) >`: the parentheses stay.
    assert_eq!(trait_impl("T", "Vec<(i32, i32)>").type_name_sanitized(), "Vec_(i32_i32)");
    // Runs of separators give one `_`, none at either end.
    assert_eq!(trait_impl("T", "HashMap<String, i32>").type_name_sanitized(), "HashMap_String_i32");
    assert_eq!(trait_impl("T", "::std::ops::Range<u8>").type_name_sanitized(), "std_ops_Range_u8");
}

#[test]
fn trait_impl_constant_names() {
    let t = trait_impl("Counter", "SimpleCounter");
    assert_eq!(t.trait_name(), "Counter");
    assert_eq!(t.call_defs_const_ident(), "SIMPLECOUNTER_COUNTER_CALL_DEFS");
    assert_eq!(t.r_wrappers_const_ident(), "R_WRAPPERS_SIMPLECOUNTER_COUNTER_IMPL");
    let t = trait_impl("miniextendr_api::AltIntegerData", "Vec<i32>");
    assert_eq!(t.trait_name(), "AltIntegerData");
    assert_eq!(t.call_defs_const_ident(), "VEC_I32_ALTINTEGERDATA_CALL_DEFS");
    assert_eq!(t.r_wrappers_const_ident(), "R_WRAPPERS_VEC_I32_ALTINTEGERDATA_IMPL");
}

#[test]
fn trait_impl_altrep_base() {
    assert_eq!(trait_impl("AltIntegerData", "Vec<i32>").altrep_base(), Some(AltrepBase::Integer));
    assert_eq!(trait_impl("api::AltRealData", "Vec<f64>").altrep_base(), Some(AltrepBase::Real));
    assert_eq!(trait_impl("AltLogicalData", "L").altrep_base(), Some(AltrepBase::Logical));
    assert_eq!(trait_impl("AltRawData", "R").altrep_base(), Some(AltrepBase::Raw));
    assert_eq!(trait_impl("AltStringData", "S").altrep_base(), Some(AltrepBase::String));
    assert_eq!(trait_impl("AltComplexData", "C").altrep_base(), Some(AltrepBase::Complex));
    assert_eq!(trait_impl("AltListData", "L").altrep_base(), Some(AltrepBase::List));
    assert_eq!(trait_impl("Counter", "SimpleCounter").altrep_base(), None);
}

#[test]
fn trait_impl_simple_type_ident() {
    assert_eq!(trait_impl("Counter", "SimpleCounter").simple_type_ident(), Some("SimpleCounter"));
    assert_eq!(trait_impl("Counter", "Vec<i32>").simple_type_ident(), None);
    assert_eq!(trait_impl("Counter", "a::B").simple_type_ident(), None);
    assert_eq!(trait_impl("Counter", "&B").simple_type_ident(), None);
}

#[test]
fn impl_entry_constant_names() {
    let plain = impl_entry("MyType", None);
    assert_eq!(plain.call_defs_const_ident(), "MYTYPE_CALL_DEFS");
    assert_eq!(plain.r_wrappers_const_ident(), "R_WRAPPERS_IMPL_MYTYPE");
    assert_eq!(plain.label(), None);
    assert_eq!(plain.rdata_call_defs_const_ident(), "RDATA_CALL_DEFS_MYTYPE");
    assert_eq!(plain.rdata_r_wrappers_const_ident(), "R_WRAPPERS_RDATA_MYTYPE");
    let labeled = impl_entry("MyType", Some("constructors"));
    assert_eq!(labeled.call_defs_const_ident(), "MYTYPE_CONSTRUCTORS_CALL_DEFS");
    assert_eq!(labeled.r_wrappers_const_ident(), "R_WRAPPERS_IMPL_MYTYPE_CONSTRUCTORS");
    assert_eq!(labeled.label(), Some("constructors"));
    let v = MiniextendrModuleVctrs { ident: "Percent".to_string() };
    assert_eq!(v.r_wrappers_const_ident(), "R_WRAPPERS_VCTRS_PERCENT");
    let f = MiniextendrModuleFunction { ident: "my_fn".to_string() };
    assert_eq!(f.r_wrapper_const_ident(), "R_WRAPPER_MY_FN");
}

#[test]
fn module_entries_are_gathered_by_kind() {
    let items = vec![
        MiniextendrModuleItem::Module("mypkg".to_string()),
        MiniextendrModuleItem::Use("submodule".to_string()),
        MiniextendrModuleItem::Func(MiniextendrModuleFunction { ident: "a".to_string() }),
        MiniextendrModuleItem::Struct("MyAltrep".to_string()),
        MiniextendrModuleItem::Impl(impl_entry("Counter", None)),
        MiniextendrModuleItem::TraitImpl(trait_impl("MyTrait", "Counter")),
        MiniextendrModuleItem::Vctrs(MiniextendrModuleVctrs { ident: "Percent".to_string() }),
        MiniextendrModuleItem::Func(MiniextendrModuleFunction { ident: "b".to_string() }),
    ];
    let m = MiniextendrModule::from_items(items).unwrap();
    assert_eq!(m.module_name, "mypkg");
    assert_eq!(m.uses, vec!["submodule".to_string()]);
    assert_eq!(m.functions.iter().map(|f| f.ident.as_str()).collect::<Vec<_>>(), vec!["a", "b"]);
    assert_eq!(m.structs, vec!["MyAltrep".to_string()]);
    assert_eq!(m.impls.len(), 1);
    assert_eq!(m.trait_impls.len(), 1);
    assert_eq!(m.vctrs.len(), 1);
}

#[test]
fn module_name_may_come_after_other_entries() {
    let items = vec![
        MiniextendrModuleItem::Func(MiniextendrModuleFunction { ident: "a".to_string() }),
        MiniextendrModuleItem::Module("late".to_string()),
    ];
    let m = MiniextendrModule::from_items(items).unwrap();
    assert_eq!(m.module_name, "late");
}

#[test]
fn module_requires_exactly_one_mod() {
    let dup = vec![
        MiniextendrModuleItem::Module("a".to_string()),
        MiniextendrModuleItem::Func(MiniextendrModuleFunction { ident: "f".to_string() }),
        MiniextendrModuleItem::Module("b".to_string()),
    ];
    let err = MiniextendrModule::from_items(dup).err().unwrap();
    assert_eq!(err, ModuleError::DuplicateMod { at: 2 });
    assert_eq!(err.message(), "duplicate `mod <name>`");
    let missing = vec![MiniextendrModuleItem::Struct("S".to_string())];
    let err = MiniextendrModule::from_items(missing).err().unwrap();
    assert_eq!(err, ModuleError::MissingMod { first_item: Some(0) });
    assert_eq!(
        err.message(),
        "missing `mod <name>;` declaration (required as first item in miniextendr_module!)"
    );
    let err = MiniextendrModule::from_items(Vec::new()).err().unwrap();
    assert_eq!(err, ModuleError::MissingMod { first_item: None });
}
