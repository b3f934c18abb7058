use miniextendr_macros::r_wrapper_builder::{
    build_r_call_args_from_sig, build_r_formals_from_sig, collect_param_idents, normalize_r_arg_string,
    DotCallBuilder, RArgumentBuilder, RoxygenBuilder,
};
use miniextendr_macros::types::{is_missing_type, GenericArg, Param, Segment, SegmentArgs, TypeModel};

fn array_len(len: &syn::Expr) -> Option<usize> {
    match len {
        syn::Expr::Lit(syn::ExprLit { lit: syn::Lit::Int(n), .. }) => n.base10_parse::<usize>().ok(),
        _ => None,
    }
}

fn to_type(ty: &syn::Type) -> TypeModel {
    match ty {
        syn::Type::Path(tp) => TypeModel::Path(
            tp.path
                .segments
                .iter()
                .map(|s| Segment {
                    ident: s.ident.to_string(),
                    args: match &s.arguments {
                        syn::PathArguments::None => SegmentArgs::Bare,
                        syn::PathArguments::AngleBracketed(a) => SegmentArgs::Angle(
                            a.args
                                .iter()
                                .map(|g| match g {
                                    syn::GenericArgument::Type(t) => GenericArg::Type(to_type(t)),
                                    _ => GenericArg::Other,
                                })
                                .collect(),
                        ),
                        syn::PathArguments::Parenthesized(_) => SegmentArgs::Paren,
                    },
                })
                .collect(),
        ),
        syn::Type::Reference(r) => TypeModel::Reference(r.mutability.is_some(), Box::new(to_type(&r.elem))),
        syn::Type::Slice(s) => TypeModel::Slice(Box::new(to_type(&s.elem))),
        syn::Type::Array(a) => TypeModel::Array(Box::new(to_type(&a.elem)), array_len(&a.len)),
        syn::Type::Paren(p) => TypeModel::Paren(Box::new(to_type(&p.elem))),
        syn::Type::Group(g) => TypeModel::Group(Box::new(to_type(&g.elem))),
        syn::Type::Tuple(t) => TypeModel::Tuple(t.elems.iter().map(to_type).collect()),
        _ => TypeModel::Other,
    }
}

fn parse_inputs(s: &str) -> Vec<Param> {
    let signature: syn::Signature = syn::parse_str(&format!("fn test({})", s)).unwrap();
    signature
        .inputs
        .iter()
        .map(|arg| match arg {
            syn::FnArg::Receiver(_) => Param::Receiver,
            syn::FnArg::Typed(pt) => Param::Typed {
                name: match pt.pat.as_ref() {
                    syn::Pat::Ident(pi) => Some(pi.ident.to_string()),
                    _ => None,
                },
                ty: to_type(&pt.ty),
            },
        })
        .collect()
}

fn defaults(pairs: &[(&str, &str)]) -> Vec<(String, String)> {
    pairs.iter().map(|(k, v)| (k.to_string(), v.to_string())).collect()
}

#[test]
fn test_normalize_arg_ident() {
    assert_eq!(normalize_r_arg_string("_x"), "x");
    assert_eq!(normalize_r_arg_string("__private"), "private");
    assert_eq!(normalize_r_arg_string("value"), "value");
}

#[test]
fn normalize_all_underscores_is_arg() {
    assert_eq!(normalize_r_arg_string("_"), "arg");
    assert_eq!(normalize_r_arg_string("___"), "arg");
    assert_eq!(normalize_r_arg_string(normalize_r_arg_string("__x").as_str()), "x");
}

#[test]
fn test_basic_formals() {
    let inputs = parse_inputs("x: i32, y: f64");
    let builder = RArgumentBuilder::new(&inputs);
    assert_eq!(builder.build_formals(), "x, y");
}

#[test]
fn test_unit_type_default() {
    let inputs = parse_inputs("x: i32, _unused: ()");
    let builder = RArgumentBuilder::new(&inputs);
    assert_eq!(builder.build_formals(), "x, unused = NULL");
}

#[test]
fn test_dots() {
    let inputs = parse_inputs("x: i32, _dots: &Dots");
    let builder = RArgumentBuilder::new(&inputs).with_dots(None);
    assert_eq!(builder.build_formals(), "x, ...");
    assert_eq!(builder.build_call_args(), "x, list(...)");
}

#[test]
fn test_trailing_dots_auto_detected() {
    let inputs = parse_inputs("x: i32, dots: &Dots");
    let builder = RArgumentBuilder::new(&inputs);
    assert_eq!(builder.build_formals(), "x, ...");
    assert_eq!(builder.build_call_args(), "x, list(...)");
}

#[test]
fn test_named_dots() {
    let inputs = parse_inputs("x: i32, _dots: &Dots");
    let builder = RArgumentBuilder::new(&inputs).with_dots(Some("args"));
    assert_eq!(builder.build_formals(), "x, ...");
    assert_eq!(builder.build_call_args(), "x, list(...)");
}

#[test]
fn test_skip_first() {
    let inputs = parse_inputs("&self, x: i32, y: f64");
    let builder = RArgumentBuilder::new(&inputs).skip_first();
    assert_eq!(builder.build_formals(), "x, y");
    assert_eq!(builder.build_call_args(), "x, y");
}

#[test]
fn test_underscore_normalization() {
    let inputs = parse_inputs("_x: i32, __private: String");
    let builder = RArgumentBuilder::new(&inputs);
    assert_eq!(builder.build_formals(), "x, private");
}

#[test]
fn test_dot_call_no_args() {
    let call = DotCallBuilder::new("C_Counter__new").build();
    assert_eq!(call, ".Call(C_Counter__new, .call = match.call())");
}

#[test]
fn test_dot_call_with_self() {
    let call = DotCallBuilder::new("C_Counter__value").with_self("self").build();
    assert_eq!(call, ".Call(C_Counter__value, .call = match.call(), self)");
}

#[test]
fn test_dot_call_with_self_and_args() {
    let call = DotCallBuilder::new("C_Counter__add").with_self("x").with_args(&["n"]).build();
    assert_eq!(call, ".Call(C_Counter__add, .call = match.call(), x, n)");
}

#[test]
fn test_dot_call_static_with_args() {
    let call = DotCallBuilder::new("C_Counter__from_parts").with_args(&["a", "b", "c"]).build();
    assert_eq!(call, ".Call(C_Counter__from_parts, .call = match.call(), a, b, c)");
}

#[test]
fn test_dot_call_with_args_str_empty_skips_args() {
    let call = DotCallBuilder::new("C_Counter__new").with_args_str("").build();
    assert_eq!(call, ".Call(C_Counter__new, .call = match.call())");
}

#[test]
fn test_dot_call_with_args_str_passes_through() {
    let call = DotCallBuilder::new("C_Counter__update").with_self("self").with_args_str("step, verbose").build();
    assert_eq!(call, ".Call(C_Counter__update, .call = match.call(), self, step, verbose)");
}

#[test]
fn test_dot_call_null_call_no_args() {
    let call = DotCallBuilder::new("C_Type__finalize").null_call_attribution().with_self("private$.ptr").build();
    assert_eq!(call, ".Call(C_Type__finalize, .call = NULL, private$.ptr)");
}

#[test]
fn test_dot_call_null_call_with_args() {
    let call = DotCallBuilder::new("C_Type__deep_clone")
        .null_call_attribution()
        .with_self("private$.ptr")
        .with_args(&["name", "value"])
        .build();
    assert_eq!(call, ".Call(C_Type__deep_clone, .call = NULL, private$.ptr, name, value)");
}

#[test]
fn test_dot_call_null_call_validator() {
    let call = DotCallBuilder::new("C_Type__validate_prop").null_call_attribution().with_args(&["value"]).build();
    assert_eq!(call, ".Call(C_Type__validate_prop, .call = NULL, value)");
}

#[test]
fn test_roxygen_basic() {
    let tags = RoxygenBuilder::new().name("Counter$increment").rdname("Counter").export().build();
    assert_eq!(tags, vec!["#' @name Counter$increment", "#' @rdname Counter", "#' @export"]);
}

#[test]
fn test_roxygen_s3_method() {
    let tags = RoxygenBuilder::new()
        .name("value")
        .source("Generated by miniextendr from `impl Counter for MyType`")
        .method("value", "MyType")
        .export()
        .build();
    assert_eq!(tags, vec!["#' @name value", "#' @method value MyType", "#' @export"]);
}

#[test]
fn test_roxygen_s4_method() {
    let tags = RoxygenBuilder::new()
        .name("s4_trait_Counter_value")
        .source("Generated by miniextendr")
        .export_method("s4_trait_Counter_value")
        .build();
    assert_eq!(tags, vec!["#' @name s4_trait_Counter_value", "#' @exportMethod s4_trait_Counter_value"]);
}

#[test]
fn roxygen_source_renders_when_enabled() {
    let tags = RoxygenBuilder::new()
        .name("value")
        .with_source_tags(true)
        .source("Generated by miniextendr")
        .export()
        .build();
    assert_eq!(tags, vec!["#' @name value", "#' @source Generated by miniextendr", "#' @export"]);
}

#[test]
fn roxygen_title_description_and_custom() {
    let tags = RoxygenBuilder::new()
        .title("Widget constructor")
        .description("Creates a new Widget with default settings.")
        .name("Widget")
        .custom("@param x A numeric value")
        .export()
        .build();
    assert_eq!(
        tags,
        vec![
            "#' @title Widget constructor",
            "#' @description Creates a new Widget with default settings.",
            "#' @name Widget",
            "#' @param x A numeric value",
            "#' @export",
        ]
    );
}

#[test]
fn test_is_missing_type() {
    let inputs = parse_inputs("x: Missing<i32>");
    match &inputs[0] {
        Param::Typed { ty, .. } => assert!(is_missing_type(ty)),
        Param::Receiver => panic!("Expected typed argument"),
    }
}

#[test]
fn test_is_not_missing_type() {
    let inputs = parse_inputs("x: Option<i32>");
    match &inputs[0] {
        Param::Typed { ty, .. } => assert!(!is_missing_type(ty)),
        Param::Receiver => panic!("Expected typed argument"),
    }
}

#[test]
fn test_missing_type_call_args_inline_sentinel() {
    let inputs = parse_inputs("x: i32, y: Missing<f64>, z: String");
    let builder = RArgumentBuilder::new(&inputs);
    assert_eq!(builder.build_call_args(), "x, if (missing(y)) quote(expr=) else y, z");
}

#[test]
fn test_multiple_missing_type_call_args() {
    let inputs = parse_inputs("a: Missing<i32>, b: f64, c: Missing<String>");
    let builder = RArgumentBuilder::new(&inputs);
    assert_eq!(
        builder.build_call_args(),
        "if (missing(a)) quote(expr=) else a, b, if (missing(c)) quote(expr=) else c"
    );
}

#[test]
fn test_missing_type_formals_clean_signature() {
    let inputs = parse_inputs("x: i32, y: Missing<f64>");
    let builder = RArgumentBuilder::new(&inputs);
    assert_eq!(builder.build_formals(), "x, y");
}

#[test]
fn user_defaults_in_formals() {
    let inputs = parse_inputs("x: i32, step: i32, verbose: bool");
    let builder =
        RArgumentBuilder::new(&inputs).with_defaults(defaults(&[("step", "1L"), ("verbose", "FALSE")]));
    assert_eq!(builder.build_formals(), "x, step = 1L, verbose = FALSE");
    assert_eq!(builder.build_call_args(), "x, step, verbose");
}

#[test]
fn first_default_binding_wins() {
    let inputs = parse_inputs("step: i32");
    let builder = RArgumentBuilder::new(&inputs).with_defaults(defaults(&[("step", "1L"), ("step", "2L")]));
    assert_eq!(builder.build_formals(), "step = 1L");
}

#[test]
fn formals_from_signature_skip_the_receiver() {
    let inputs = parse_inputs("&mut self, _value: i32, flag: ()");
    assert_eq!(build_r_formals_from_sig(&inputs, defaults(&[("value", "0L")])), "value = 0L, flag = NULL");
    assert_eq!(build_r_call_args_from_sig(&inputs), "value, flag");
}

#[test]
fn collect_idents_normalized_or_not() {
    let inputs = parse_inputs("&self, _a: i32, b: f64");
    assert_eq!(collect_param_idents(&inputs, false, true), vec!["a", "b"]);
    assert_eq!(collect_param_idents(&inputs, false, false), vec!["_a", "b"]);
    let plain = parse_inputs("_a: i32, b: f64");
    assert_eq!(collect_param_idents(&plain, true, true), vec!["b"]);
}

#[test]
fn non_identifier_patterns_contribute_nothing() {
    let inputs = parse_inputs("(a, b): (i32, i32), c: i32");
    assert_eq!(RArgumentBuilder::new(&inputs).build_formals(), "c");
}
