use miniextendr_macros::miniextendr_impl_trait::{is_self_ref_type, output_is_result};
use miniextendr_macros::r_preconditions::CoercionMapping;
use miniextendr_macros::rust_conversion_builder::{ArgContext, ConversionPlan, RustConversionBuilder};
use miniextendr_macros::tokens::{Delimiter, Spacing, TokenTree};
use miniextendr_macros::type_inspect::{erase_lifetime_tokens, type_display, SeveralOkContainer};
use miniextendr_macros::types::{GenericArg, Segment, SegmentArgs, TypeModel};

fn array_len(len: &syn::Expr) -> Option<usize> {
    match len {
        syn::Expr::Lit(syn::ExprLit { lit: syn::Lit::Int(n), .. }) => n.base10_parse::<usize>().ok(),
        _ => None,
    }
}

fn to_type(ty: &syn::Type) -> TypeModel {
    match ty {
        syn::Type::Path(tp) => TypeModel::Path(
            tp.path
                .segments
                .iter()
                .map(|s| Segment {
                    ident: s.ident.to_string(),
                    args: match &s.arguments {
                        syn::PathArguments::None => SegmentArgs::Bare,
                        syn::PathArguments::AngleBracketed(a) => SegmentArgs::Angle(
                            a.args
                                .iter()
                                .map(|g| match g {
                                    syn::GenericArgument::Type(t) => GenericArg::Type(to_type(t)),
                                    _ => GenericArg::Other,
                                })
                                .collect(),
                        ),
                        syn::PathArguments::Parenthesized(_) => SegmentArgs::Paren,
                    },
                })
                .collect(),
        ),
        syn::Type::Reference(r) => TypeModel::Reference(r.mutability.is_some(), Box::new(to_type(&r.elem))),
        syn::Type::Slice(s) => TypeModel::Slice(Box::new(to_type(&s.elem))),
        syn::Type::Array(a) => TypeModel::Array(Box::new(to_type(&a.elem)), array_len(&a.len)),
        syn::Type::Paren(p) => TypeModel::Paren(Box::new(to_type(&p.elem))),
        syn::Type::Group(g) => TypeModel::Group(Box::new(to_type(&g.elem))),
        syn::Type::Tuple(t) => TypeModel::Tuple(t.elems.iter().map(to_type).collect()),
        _ => TypeModel::Other,
    }
}


fn ty(s: &str) -> TypeModel {
    to_type(&syn::parse_str::<syn::Type>(s).unwrap())
}

fn token_model(ts: proc_macro2::TokenStream) -> Vec<TokenTree> {
    ts.into_iter()
        .map(|tt| match tt {
            proc_macro2::TokenTree::Ident(i) => TokenTree::Ident(i.to_string()),
            proc_macro2::TokenTree::Punct(p) => TokenTree::Punct(
                p.as_char(),
                match p.spacing() {
                    proc_macro2::Spacing::Joint => Spacing::Joint,
                    proc_macro2::Spacing::Alone => Spacing::Alone,
                },
            ),
            proc_macro2::TokenTree::Literal(l) => TokenTree::Literal(l.to_string()),
            proc_macro2::TokenTree::Group(g) => TokenTree::Group(
                match g.delimiter() {
                    proc_macro2::Delimiter::Parenthesis => Delimiter::Parenthesis,
                    proc_macro2::Delimiter::Bracket => Delimiter::Bracket,
                    proc_macro2::Delimiter::Brace => Delimiter::Brace,
                    proc_macro2::Delimiter::None => Delimiter::Invisible,
                },
                token_model(g.stream()),
            ),
        })
        .collect()
}

fn type_tokens(src: &str) -> Vec<TokenTree> {
    let t: syn::Type = syn::parse_str(src).unwrap();
    token_model(quote::ToTokens::to_token_stream(&t))
}

/// The conversion of `name: src` on the main-thread path.
fn plan(b: &RustConversionBuilder, name: &str, src: &str) -> ConversionPlan {
    b.conversion_plan(Some(name), &ty(src), true, false)
}

#[test]
fn new_builder_has_every_knob_off() {
    let b = RustConversionBuilder::new();
    assert!(!b.coerce_all);
    assert!(!b.strict);
    assert!(b.coerce_params.is_empty());
    assert!(b.match_arg_several_ok_params.is_empty());
    assert!(b.match_arg_optional_params.is_empty());
    assert!(b.conversion_error_class.is_empty());
    assert!(!b.should_coerce("x"));
    let d = RustConversionBuilder::default();
    assert!(!d.coerce_all && !d.strict);
}

#[test]
fn coercion_by_name_or_for_all() {
    let b = RustConversionBuilder::new().with_coerce_param("x".to_string()).with_coerce_param("y".to_string());
    assert!(b.should_coerce("x"));
    assert!(b.should_coerce("y"));
    assert!(!b.should_coerce("z"));
    let all = RustConversionBuilder::new().with_coerce_all();
    assert!(all.should_coerce("anything"));
}

#[test]
fn knobs_accumulate() {
    let b = RustConversionBuilder::new()
        .with_strict()
        .with_match_arg_several_ok("modes".to_string())
        .with_match_arg_optional("mode".to_string())
        .with_conversion_error_class(vec!["pkg_error".to_string()]);
    assert!(b.strict);
    assert_eq!(b.match_arg_several_ok_params, vec!["modes"]);
    assert_eq!(b.match_arg_optional_params, vec!["mode"]);
    assert_eq!(b.conversion_error_class, vec!["pkg_error"]);
    assert!(!b.coerce_all);
}

#[test]
fn test_unit_type() {
    assert_eq!(plan(&RustConversionBuilder::new(), "_unused", "()"), ConversionPlan::Unit);
}

#[test]
fn test_basic_conversion() {
    assert_eq!(plan(&RustConversionBuilder::new(), "x", "i32"), ConversionPlan::Plain);
}

#[test]
fn test_slice_conversion() {
    assert_eq!(plan(&RustConversionBuilder::new(), "x", "&[i32]"), ConversionPlan::Slice);
}

#[test]
fn test_str_conversion_main_thread_borrows_zero_copy() {
    assert_eq!(plan(&RustConversionBuilder::new(), "s", "&str"), ConversionPlan::StrZeroCopy);
}

#[test]
fn test_str_conversion_worker_copies_then_borrows() {
    let b = RustConversionBuilder::new();
    assert_eq!(b.conversion_plan(Some("s"), &ty("&str"), false, false), ConversionPlan::StrOwned);
}

#[test]
fn test_coercion() {
    let b = RustConversionBuilder::new().with_coerce_param("x".to_string());
    // `u16` has no coercing conversion: the plain one.
    assert_eq!(plan(&b, "x", "u16"), ConversionPlan::Plain);
    assert_eq!(plan(&b, "x", "i32"), ConversionPlan::Coerced(CoercionMapping::NativeInt));
    assert_eq!(plan(&b, "x", "Vec<f64>"), ConversionPlan::Coerced(CoercionMapping::NativeRealVec));
    assert_eq!(plan(&b, "y", "i32"), ConversionPlan::Plain);
}

#[test]
fn conversion_plans_of_special_parameters() {
    let b = RustConversionBuilder::new();
    assert_eq!(b.conversion_plan(None, &ty("i32"), true, false), ConversionPlan::Skip);
    assert_eq!(plan(&b, "call", "Call"), ConversionPlan::CallMarkerOnMethod);
    assert_eq!(plan(&b, "dots", "&Dots"), ConversionPlan::Dots);
    assert_eq!(plan(&b, "dots", "&miniextendr_api::dots::Dots"), ConversionPlan::Dots);
    assert_eq!(plan(&b, "x", "&MyType"), ConversionPlan::Reference);
    assert_eq!(plan(&b, "x", "(i32, i32)"), ConversionPlan::Plain);
    let strict = RustConversionBuilder::new().with_strict();
    assert_eq!(strict.conversion_plan(Some("x"), &ty("i64"), true, true), ConversionPlan::Strict);
    assert_eq!(strict.conversion_plan(Some("x"), &ty("i64"), true, false), ConversionPlan::Plain);
    assert_eq!(strict.conversion_plan(Some("x"), &ty("&[i64]"), true, true), ConversionPlan::Slice);
}

#[test]
fn conversion_plans_of_match_arg_parameters() {
    let b = RustConversionBuilder::new()
        .with_match_arg_several_ok("modes".to_string())
        .with_match_arg_optional("mode".to_string());
    assert_eq!(plan(&b, "mode", "Option<Mode>"), ConversionPlan::OptionalChoice);
    assert_eq!(plan(&b, "mode", "Mode"), ConversionPlan::Plain);
    assert_eq!(plan(&b, "modes", "Vec<Mode>"), ConversionPlan::Choices(SeveralOkContainer::Vec));
    assert_eq!(plan(&b, "modes", "Box<[Mode]>"), ConversionPlan::Choices(SeveralOkContainer::BoxedSlice));
    assert_eq!(plan(&b, "modes", "[Mode; 2]"), ConversionPlan::Choices(SeveralOkContainer::Array(2)));
    assert_eq!(plan(&b, "modes", "&[Mode]"), ConversionPlan::BorrowedChoices { mutable: false });
    assert_eq!(plan(&b, "modes", "&mut [Mode]"), ConversionPlan::BorrowedChoices { mutable: true });
    // A raw identifier is looked up without its `r#`.
    assert_eq!(plan(&b, "r#mode", "Option<Mode>"), ConversionPlan::OptionalChoice);
}

#[test]
fn test_conversion_err_arm_context_and_param() {
    let ctx = ArgContext::new("nums", &ty("AsFromStrVec<i32>"), &type_tokens("AsFromStrVec<i32>"), false);
    assert_eq!(ctx.prefix, "failed to convert parameter 'nums' to AsFromStrVec<i32>");
    assert!(!ctx.expected_known);
    assert_eq!(ctx.r_name, "nums");
    assert_eq!(ctx.rust_type, "AsFromStrVec<i32>");
    let known = ArgContext::new("x", &ty("i32"), &type_tokens("i32"), false);
    assert!(known.expected_known);
    assert!(known.prefix.starts_with("'x' must be "), "{}", known.prefix);
    let len = known.with_length(3);
    assert_eq!(len.prefix, "'x' must be of length 3");
    assert!(len.expected_known);
}

#[test]
fn trait_method_signature_questions() {
    assert!(is_self_ref_type(&ty("&Self")));
    assert!(is_self_ref_type(&ty("&mut Self")));
    assert!(!is_self_ref_type(&ty("Self")));
    assert!(output_is_result(Some(&ty("Result<i32, String>"))));
    assert!(output_is_result(Some(&ty("std::result::Result<(), E>"))));
    assert!(!output_is_result(Some(&ty("Option<i32>"))));
    assert!(!output_is_result(None));
}

/// Borrowed slices and `&str` are bound with their lifetimes erased; other
/// references keep their type.
#[test]
fn test_borrowed_bindings_are_typed_with_erased_lifetimes() {
    let b = RustConversionBuilder::new();
    for (name, src, want_plan, binding) in [
        ("x", "&'a [f64]", ConversionPlan::Slice, "&'_ [f64]"),
        ("s", "&'a str", ConversionPlan::StrZeroCopy, "&'_ str"),
        ("x", "&[f64]", ConversionPlan::Slice, "&[f64]"),
    ] {
        assert_eq!(plan(&b, name, src), want_plan, "{src}");
        assert_eq!(type_display(&erase_lifetime_tokens(type_tokens(src))), binding, "{src}");
    }
}

/// The crate-level classes travel with the builder into every conversion.
#[test]
fn test_conversion_err_arm_carries_the_crate_class() {
    let b = RustConversionBuilder::new()
        .with_conversion_error_class(vec!["pkg_error_argument".to_string(), "pkg_error".to_string()]);
    assert_eq!(b.conversion_error_class, vec!["pkg_error_argument".to_string(), "pkg_error".to_string()]);
    assert_eq!(plan(&b, "x", "i32"), ConversionPlan::Plain);
    assert_eq!(plan(&b, "x", "&[f64]"), ConversionPlan::Slice);
    assert_eq!(plan(&b, "s", "&str"), ConversionPlan::StrZeroCopy);
}
