use miniextendr_macros::return_type_analysis::{
    analyze_return_type, PostCall, ReturnConversion, ReturnPref, ReturnTypeAnalysis,
};
use miniextendr_macros::types::{GenericArg, Segment, SegmentArgs, TypeModel};
fn array_len(len: &syn::Expr) -> Option<usize> {
    match len {
        syn::Expr::Lit(syn::ExprLit { lit: syn::Lit::Int(n), .. }) => n.base10_parse::<usize>().ok(),
        _ => None,
    }
}

fn to_type(ty: &syn::Type) -> TypeModel {
    match ty {
        syn::Type::Path(tp) => TypeModel::Path(
            tp.path
                .segments
                .iter()
                .map(|s| Segment {
                    ident: s.ident.to_string(),
                    args: match &s.arguments {
                        syn::PathArguments::None => SegmentArgs::Bare,
                        syn::PathArguments::AngleBracketed(a) => SegmentArgs::Angle(
                            a.args
                                .iter()
                                .map(|g| match g {
                                    syn::GenericArgument::Type(t) => GenericArg::Type(to_type(t)),
                                    _ => GenericArg::Other,
                                })
                                .collect(),
                        ),
                        syn::PathArguments::Parenthesized(_) => SegmentArgs::Paren,
                    },
                })
                .collect(),
        ),
        syn::Type::Reference(r) => TypeModel::Reference(r.mutability.is_some(), Box::new(to_type(&r.elem))),
        syn::Type::Slice(s) => TypeModel::Slice(Box::new(to_type(&s.elem))),
        syn::Type::Array(a) => TypeModel::Array(Box::new(to_type(&a.elem)), array_len(&a.len)),
        syn::Type::Paren(p) => TypeModel::Paren(Box::new(to_type(&p.elem))),
        syn::Type::Group(g) => TypeModel::Group(Box::new(to_type(&g.elem))),
        syn::Type::Tuple(t) => TypeModel::Tuple(t.elems.iter().map(to_type).collect()),
        _ => TypeModel::Other,
    }
}

fn ty(s: &str) -> TypeModel {
    to_type(&syn::parse_str::<syn::Type>(s).unwrap())
}

fn analyze(s: &str) -> ReturnTypeAnalysis {
    let t = ty(s);
    analyze_return_type(Some(&t), ReturnPref::Auto, false)
}

fn plan(returns_sexp: bool, is_invisible: bool, conversion: ReturnConversion, post_call: Option<PostCall>) -> ReturnTypeAnalysis {
    ReturnTypeAnalysis { returns_sexp, is_invisible, conversion, post_call }
}

#[test]
fn no_return_type_is_invisible_null() {
    let r = analyze_return_type(None, ReturnPref::List, true);
    assert_eq!(r, plan(false, true, ReturnConversion::Nil, None));
}

#[test]
fn unit_return_is_invisible_null() {
    assert_eq!(analyze("()"), plan(false, true, ReturnConversion::Nil, None));
}

#[test]
fn sexp_return_is_the_value() {
    assert_eq!(analyze("SEXP"), plan(true, false, ReturnConversion::Value, None));
    assert_eq!(
        analyze("miniextendr_api::ffi::SEXP"),
        plan(true, false, ReturnConversion::Value, None)
    );
}

#[test]
fn option_unit_panics_on_none() {
    assert_eq!(
        analyze("Option<()>"),
        plan(false, true, ReturnConversion::Nil, Some(PostCall::PanicOnNone))
    );
}

#[test]
fn option_sexp_returns_object_or_null() {
    assert_eq!(
        analyze("Option<SEXP>"),
        plan(true, false, ReturnConversion::OptionalSexp, None)
    );
}

#[test]
fn option_value_converts_whole() {
    assert_eq!(
        analyze("Option<i32>"),
        plan(false, false, ReturnConversion::IntoR(ReturnPref::Auto), None)
    );
    // The preference applies to plain values only.
    let t = ty("Option<i32>");
    assert_eq!(
        analyze_return_type(Some(&t), ReturnPref::List, false),
        plan(false, false, ReturnConversion::IntoR(ReturnPref::Auto), None)
    );
}

#[test]
fn result_unit_unit_is_invisible_null() {
    assert_eq!(analyze("Result<(), ()>"), plan(false, true, ReturnConversion::Nil, None));
}

#[test]
fn result_with_unit_error_is_null_on_err() {
    assert_eq!(
        analyze("Result<i32, ()>"),
        plan(false, false, ReturnConversion::IntoR(ReturnPref::Auto), Some(PostCall::NullOnErr))
    );
    assert_eq!(
        analyze("Result<SEXP, ()>"),
        plan(true, false, ReturnConversion::IntoR(ReturnPref::Auto), Some(PostCall::NullOnErr))
    );
}

#[test]
fn result_unwrapped_in_r_goes_as_is() {
    let t = ty("Result<SEXP, String>");
    assert_eq!(
        analyze_return_type(Some(&t), ReturnPref::Auto, true),
        plan(true, false, ReturnConversion::IntoR(ReturnPref::Auto), None)
    );
    let t = ty("Result<(), String>");
    assert_eq!(
        analyze_return_type(Some(&t), ReturnPref::Auto, true),
        plan(false, false, ReturnConversion::IntoR(ReturnPref::Auto), None)
    );
}

#[test]
fn result_unit_ok_panics_on_err() {
    assert_eq!(
        analyze("Result<(), String>"),
        plan(false, true, ReturnConversion::Nil, Some(PostCall::PanicOnErr))
    );
}

#[test]
fn result_value_unwraps_then_converts() {
    assert_eq!(
        analyze("Result<i32, String>"),
        plan(false, false, ReturnConversion::IntoR(ReturnPref::Auto), Some(PostCall::UnwrapOrPanic))
    );
    assert_eq!(
        analyze("Result<SEXP, String>"),
        plan(true, false, ReturnConversion::Value, Some(PostCall::UnwrapOrPanic))
    );
}

#[test]
fn plain_value_follows_preference() {
    let t = ty("Vec<i32>");
    for pref in [ReturnPref::Auto, ReturnPref::List, ReturnPref::ExternalPtr, ReturnPref::Native] {
        assert_eq!(
            analyze_return_type(Some(&t), pref, false),
            plan(false, false, ReturnConversion::IntoR(pref), None)
        );
    }
}

#[test]
fn reference_to_option_is_a_plain_value() {
    assert_eq!(
        analyze("&Option<()>"),
        plan(false, false, ReturnConversion::IntoR(ReturnPref::Auto), None)
    );
}
