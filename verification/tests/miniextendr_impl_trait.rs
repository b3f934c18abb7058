use miniextendr_macros::miniextendr_impl_trait::{
    apply_trait_wrapper_opts, parse_trait_method_attrs, AttrArgs, TraitMethodAttrs, TraitWrapperOpts,
};
use miniextendr_macros::miniextendr_impl_trait::{
    concrete_vtable_shims, trait_method_c_wrapper_plan, vtable_static_plan, ReturnChoice, ThreadStrategy,
};
use miniextendr_macros::miniextendr_trait::{SelfReceiver, TraitMethodSig};
use miniextendr_macros::return_wrap::ClassSystem;
use miniextendr_macros::types::{GenericArg, Param, Segment, SegmentArgs, TypeModel};

use miniextendr_macros::tokens::{Delimiter, Spacing, TokenTree};

fn token_model(ts: proc_macro2::TokenStream) -> Vec<TokenTree> {
    ts.into_iter()
        .map(|tt| match tt {
            proc_macro2::TokenTree::Ident(i) => TokenTree::Ident(i.to_string()),
            proc_macro2::TokenTree::Punct(p) => TokenTree::Punct(
                p.as_char(),
                match p.spacing() {
                    proc_macro2::Spacing::Joint => Spacing::Joint,
                    proc_macro2::Spacing::Alone => Spacing::Alone,
                },
            ),
            proc_macro2::TokenTree::Literal(l) => TokenTree::Literal(l.to_string()),
            proc_macro2::TokenTree::Group(g) => TokenTree::Group(
                match g.delimiter() {
                    proc_macro2::Delimiter::Parenthesis => Delimiter::Parenthesis,
                    proc_macro2::Delimiter::Bracket => Delimiter::Bracket,
                    proc_macro2::Delimiter::Brace => Delimiter::Brace,
                    proc_macro2::Delimiter::None => Delimiter::Invisible,
                },
                token_model(g.stream()),
            ),
        })
        .collect()
}

/// The options of the attributes written before `fn f() {}`.
fn options(attrs: &str, default_worker: bool) -> TraitMethodAttrs {
    let item: syn::ItemFn = syn::parse_str(&format!("{attrs} fn f() {{}}")).unwrap();
    let models: Vec<AttrArgs> = item
        .attrs
        .iter()
        .map(|a| AttrArgs {
            path: a.path().get_ident().map(|i| i.to_string()),
            args: match &a.meta {
                syn::Meta::List(l) => Some(token_model(l.tokens.clone())),
                _ => None,
            },
        })
        .collect();
    parse_trait_method_attrs(&models, default_worker)
}

fn flags(o: &TraitMethodAttrs) -> [bool; 8] {
    [o.worker, o.unsafe_main_thread, o.coerce, o.check_interrupt, o.rng, o.unwrap_in_r, o.error_in_r, o.skip]
}

#[test]
fn flat_flags() {
    let o = options("#[miniextendr(worker, coerce, rng)]", false);
    assert_eq!(flags(&o), [true, false, true, false, true, false, false, false]);
    let o = options("#[miniextendr(main_thread, check_interrupt, skip)]", false);
    assert_eq!(flags(&o), [false, true, false, true, false, false, false, true]);
}

#[test]
fn nested_class_flags() {
    let o = options("#[miniextendr(env(worker, coerce))]", false);
    assert_eq!(flags(&o), [true, false, true, false, false, false, false, false]);
    // `rng` is not read inside a class list.
    let o = options("#[miniextendr(s3(rng, check_interrupt))]", false);
    assert_eq!(flags(&o), [false, false, false, true, false, false, false, false]);
    // An empty class list is an error: what follows is not read.
    let o = options("#[miniextendr(r6(), coerce)]", false);
    assert!(!o.coerce);
}

#[test]
fn r_name_and_defaults() {
    let o = options("#[miniextendr(r_name = \"get_value\")]", false);
    assert_eq!(o.r_name.as_deref(), Some("get_value"));
    // The string literal's escapes are resolved.
    let o = options("#[miniextendr(r_name = \"a\\\"b\")]", false);
    assert_eq!(o.r_name.as_deref(), Some("a\"b"));
    let o = options("#[miniextendr(defaults(x = \"1L\", y = \"NULL\", x = \"2L\"))]", false);
    assert_eq!(o.defaults, vec![("x".to_string(), "2L".to_string()), ("y".to_string(), "NULL".to_string())]);
    // A value that is not a string stops the attribute.
    let o = options("#[miniextendr(r_name = 3, coerce)]", false);
    assert!(o.r_name.is_none() && !o.coerce);
}

#[test]
fn unwrap_and_error_in_r_exclude_each_other() {
    let o = options("#[miniextendr(unwrap_in_r, error_in_r, coerce)]", false);
    assert!(o.unwrap_in_r && !o.error_in_r && !o.coerce);
    let o = options("#[miniextendr(error_in_r)] #[miniextendr(env(unwrap_in_r))]", false);
    assert!(o.error_in_r && !o.unwrap_in_r);
    let o = options("#[miniextendr(error_in_r)]", false);
    assert!(o.error_in_r && !o.unwrap_in_r);
}

#[test]
fn unreadable_options_stop_their_attribute_only() {
    // An unknown option with a value stops the attribute ...
    let o = options("#[miniextendr(foo = 1, coerce)] #[miniextendr(rng)]", false);
    assert!(!o.coerce && o.rng);
    // ... an unknown bare option is passed over.
    let o = options("#[miniextendr(foo, coerce)]", false);
    assert!(o.coerce);
    // Other attributes and the bare form are not read.
    let o = options("#[other(coerce)] #[miniextendr] #[doc = \"x\"]", false);
    assert_eq!(flags(&o), [false; 8]);
}

#[test]
fn default_worker_sets_worker() {
    assert!(options("", true).worker);
    assert!(!options("", false).worker);
    assert!(options("#[miniextendr(coerce)]", true).worker);
}

const S3_WRAPPER: &str = "# header\n#' S3 method\n#' @param x obj\n#' @method value Foo\n#' @export\nvalue.Foo <- function(x, ...) 1\n#' Docs only\n#' @rdname Foo\nFoo_helper <- function() 2\n";

fn opts(class_system: ClassSystem, no_rd: bool, internal: bool, noexport: bool) -> TraitWrapperOpts {
    TraitWrapperOpts { class_system, class_has_no_rd: no_rd, internal, noexport }
}

#[test]
fn wrapper_without_options_is_unchanged() {
    assert_eq!(apply_trait_wrapper_opts(S3_WRAPPER, opts(ClassSystem::S3, false, false, false)), S3_WRAPPER);
}

#[test]
fn no_rd_keeps_s3_registration() {
    assert_eq!(
        apply_trait_wrapper_opts(S3_WRAPPER, opts(ClassSystem::S3, true, false, false)),
        "# header\n#' @noRd\n#' @param x obj\n#' @method value Foo\n#' @export\nvalue.Foo <- function(x, ...) 1\nFoo_helper <- function() 2"
    );
}

#[test]
fn noexport_drops_s3_export() {
    assert_eq!(
        apply_trait_wrapper_opts(S3_WRAPPER, opts(ClassSystem::Vctrs, false, false, true)),
        "# header\n#' @noRd\n#' @param x obj\n#' @method value Foo\nvalue.Foo <- function(x, ...) 1\nFoo_helper <- function() 2"
    );
}

#[test]
fn noexport_drops_all_docs_of_other_systems() {
    let env = "#' Method\n#' @name Foo$Trait$value\nFoo$Trait$value <- function(x) 1\n";
    assert_eq!(
        apply_trait_wrapper_opts(env, opts(ClassSystem::Env, false, false, true)),
        "Foo$Trait$value <- function(x) 1"
    );
    // `internal` wins over `noexport`.
    assert_eq!(
        apply_trait_wrapper_opts(env, opts(ClassSystem::Env, false, true, true)),
        "#' @keywords internal\n#' Method\n#' @name Foo$Trait$value\nFoo$Trait$value <- function(x) 1"
    );
}

#[test]
fn internal_replaces_export() {
    assert_eq!(
        apply_trait_wrapper_opts(S3_WRAPPER, opts(ClassSystem::S3, false, true, false)),
        "# header\n#' S3 method\n#' @param x obj\n#' @method value Foo\n#' @keywords internal\nvalue.Foo <- function(x, ...) 1\n#' Docs only\n#' @rdname Foo\nFoo_helper <- function() 2"
    );
    // Without roxygen lines there is nothing to mark.
    assert_eq!(apply_trait_wrapper_opts("f <- 1\n", opts(ClassSystem::R6, false, true, false)), "f <- 1");
}

fn array_len(len: &syn::Expr) -> Option<usize> {
    match len {
        syn::Expr::Lit(syn::ExprLit { lit: syn::Lit::Int(n), .. }) => n.base10_parse::<usize>().ok(),
        _ => None,
    }
}

fn to_type(ty: &syn::Type) -> TypeModel {
    match ty {
        syn::Type::Path(tp) => TypeModel::Path(
            tp.path
                .segments
                .iter()
                .map(|s| Segment {
                    ident: s.ident.to_string(),
                    args: match &s.arguments {
                        syn::PathArguments::None => SegmentArgs::Bare,
                        syn::PathArguments::AngleBracketed(a) => SegmentArgs::Angle(
                            a.args
                                .iter()
                                .map(|g| match g {
                                    syn::GenericArgument::Type(t) => GenericArg::Type(to_type(t)),
                                    _ => GenericArg::Other,
                                })
                                .collect(),
                        ),
                        syn::PathArguments::Parenthesized(_) => SegmentArgs::Paren,
                    },
                })
                .collect(),
        ),
        syn::Type::Reference(r) => TypeModel::Reference(r.mutability.is_some(), Box::new(to_type(&r.elem))),
        syn::Type::Slice(s) => TypeModel::Slice(Box::new(to_type(&s.elem))),
        syn::Type::Array(a) => TypeModel::Array(Box::new(to_type(&a.elem)), array_len(&a.len)),
        syn::Type::Paren(p) => TypeModel::Paren(Box::new(to_type(&p.elem))),
        syn::Type::Group(g) => TypeModel::Group(Box::new(to_type(&g.elem))),
        syn::Type::Tuple(t) => TypeModel::Tuple(t.elems.iter().map(to_type).collect()),
        _ => TypeModel::Other,
    }
}


fn sig(src: &str) -> TraitMethodSig {
    let m: syn::TraitItemFn = syn::parse_str(src).unwrap();
    let sig = &m.sig;
    TraitMethodSig {
        name: sig.ident.to_string(),
        is_async: sig.asyncness.is_some(),
        has_generics: !sig.generics.params.is_empty(),
        receiver: match sig.inputs.first() {
            Some(syn::FnArg::Receiver(r)) => Some(SelfReceiver {
                reference: r.reference.is_some(),
                mutability: r.mutability.is_some(),
                explicit_type: r.colon_token.is_some(),
                ty: to_type(&r.ty),
            }),
            _ => None,
        },
        params: sig
            .inputs
            .iter()
            .filter_map(|a| match a {
                syn::FnArg::Typed(pt) => Some(Param::Typed {
                    name: match pt.pat.as_ref() {
                        syn::Pat::Ident(pi) => Some(pi.ident.to_string()),
                        _ => None,
                    },
                    ty: to_type(&pt.ty),
                }),
                _ => None,
            })
            .collect(),
        output: match &sig.output {
            syn::ReturnType::Default => None,
            syn::ReturnType::Type(_, t) => Some(to_type(t)),
        },
        has_default: m.default.is_some(),
    }
}

#[test]
fn concrete_shims_follow_the_instance_methods() {
    let methods = vec![
        sig("fn value(&self) -> i32;"),
        sig("fn create() -> Self;"),
        sig("fn merge(&mut self, other: &Self, (a, b): (i32, i32));"),
    ];
    let shims = concrete_vtable_shims(&methods, "MyCounter", "Counter");
    assert_eq!(shims.len(), 2);
    assert_eq!(shims[0].index, 0);
    assert_eq!(shims[0].shim_name, "__vtshim_MyCounter__Counter__value");
    assert_eq!(shims[0].display_name, "Counter::value");
    assert!(shims[0].has_return && !shims[0].is_mut);
    assert_eq!(shims[1].index, 2);
    assert_eq!(shims[1].arg_names, vec!["other".to_string(), "arg1".to_string()]);
    assert_eq!(shims[1].self_ref_args, vec![true, false]);
    assert!(shims[1].is_mut && !shims[1].has_return);
}

fn attrs_of(src: &str) -> TraitMethodAttrs {
    options(src, false)
}

#[test]
fn c_wrapper_plans() {
    let m = sig("fn merge(&mut self, other: &Self, n: i32) -> Result<i32, String>;");
    let p = trait_method_c_wrapper_plan(&m, &attrs_of("#[miniextendr(unwrap_in_r, coerce, worker)]"), "MyCounter", "Counter");
    assert_eq!(p.thread, ThreadStrategy::MainThread);
    assert_eq!(p.rust_args, vec!["other".to_string(), "n".to_string()]);
    assert_eq!(p.self_ref_inputs, vec![true, false]);
    assert_eq!(p.deref_args, vec![true, false]);
    assert_eq!(p.return_handling, ReturnChoice::IntoR);
    assert_eq!(p.r_wrappers_const, "R_WRAPPERS_MYCOUNTER_COUNTER_IMPL");
    assert_eq!(p.trait_method_name, "Counter::merge()");
    assert_eq!(p.self_receiver, Some(true));
    assert!(p.coerce && !p.rng && !p.check_interrupt && !p.error_in_r);

    let s = sig("fn create(n: i32) -> Self;");
    let p = trait_method_c_wrapper_plan(&s, &attrs_of("#[miniextendr(worker, rng)]"), "MyCounter", "Counter");
    assert_eq!(p.thread, ThreadStrategy::WorkerThread);
    assert_eq!(p.return_handling, ReturnChoice::FromReturnType);
    assert_eq!(p.self_receiver, None);
    assert!(p.rng);
    let p = trait_method_c_wrapper_plan(&s, &attrs_of("#[miniextendr(worker, main_thread)]"), "MyCounter", "Counter");
    assert_eq!(p.thread, ThreadStrategy::MainThread);
}

#[test]
fn vtable_static_names_and_counts() {
    let p = vtable_static_plan("MyCounter", "MYCOUNTER", "Counter", &[false, true, false], 2, false, false);
    assert_eq!(p.vtable_static_name, "__VTABLE_COUNTER_FOR_MYCOUNTER");
    assert_eq!(p.vtable_type_name, "CounterVTable");
    assert_eq!(p.builder_fn, "__counter_build_vtable");
    assert_eq!(p.call_defs_const, "MYCOUNTER_COUNTER_CALL_DEFS");
    assert_eq!(p.r_wrappers_const, "R_WRAPPERS_MYCOUNTER_COUNTER_IMPL");
    assert_eq!(p.kept, vec![0, 2]);
    assert_eq!(p.call_defs_len, 4);
    assert!(p.emit_impl && !p.inline_vtable);
    let blanket = vtable_static_plan("V", "V", "RExtend", &[], 0, true, false);
    assert!(!blanket.emit_impl && blanket.inline_vtable);
    assert!(!vtable_static_plan("V", "V", "T", &[false], 0, false, true).emit_impl);
}
