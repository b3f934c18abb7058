use miniextendr_macros::r_class_formatter::{
    class_ref_or_verbatim, is_bare_identifier, match_arg_param_doc_placeholder, match_arg_placeholder,
    ClassDocBuilder, MethodContext, MethodDocBuilder, MethodModel, ParamAttrs,
};
use miniextendr_macros::r_preconditions::{ExplicitChecks, PreconditionOptions};
use miniextendr_macros::types::{GenericArg, Param, Segment, SegmentArgs, TypeModel};

fn array_len(len: &syn::Expr) -> Option<usize> {
    match len {
        syn::Expr::Lit(syn::ExprLit { lit: syn::Lit::Int(n), .. }) => n.base10_parse::<usize>().ok(),
        _ => None,
    }
}

fn to_type(ty: &syn::Type) -> TypeModel {
    match ty {
        syn::Type::Path(tp) => TypeModel::Path(
            tp.path
                .segments
                .iter()
                .map(|s| Segment {
                    ident: s.ident.to_string(),
                    args: match &s.arguments {
                        syn::PathArguments::None => SegmentArgs::Bare,
                        syn::PathArguments::AngleBracketed(a) => SegmentArgs::Angle(
                            a.args
                                .iter()
                                .map(|g| match g {
                                    syn::GenericArgument::Type(t) => GenericArg::Type(to_type(t)),
                                    _ => GenericArg::Other,
                                })
                                .collect(),
                        ),
                        syn::PathArguments::Parenthesized(_) => SegmentArgs::Paren,
                    },
                })
                .collect(),
        ),
        syn::Type::Reference(r) => TypeModel::Reference(r.mutability.is_some(), Box::new(to_type(&r.elem))),
        syn::Type::Slice(s) => TypeModel::Slice(Box::new(to_type(&s.elem))),
        syn::Type::Array(a) => TypeModel::Array(Box::new(to_type(&a.elem)), array_len(&a.len)),
        syn::Type::Paren(p) => TypeModel::Paren(Box::new(to_type(&p.elem))),
        syn::Type::Group(g) => TypeModel::Group(Box::new(to_type(&g.elem))),
        syn::Type::Tuple(t) => TypeModel::Tuple(t.elems.iter().map(to_type).collect()),
        _ => TypeModel::Other,
    }
}

fn parse_inputs(s: &str) -> Vec<Param> {
    let signature: syn::Signature = syn::parse_str(&format!("fn test({})", s)).unwrap();
    signature
        .inputs
        .iter()
        .map(|arg| match arg {
            syn::FnArg::Receiver(_) => Param::Receiver,
            syn::FnArg::Typed(pt) => Param::Typed {
                name: match pt.pat.as_ref() {
                    syn::Pat::Ident(pi) => Some(pi.ident.to_string()),
                    _ => None,
                },
                ty: to_type(&pt.ty),
            },
        })
        .collect()
}

fn strings(v: &[&str]) -> Vec<String> {
    v.iter().map(|s| s.to_string()).collect()
}

fn method(ident: &str, sig: &str) -> MethodModel {
    MethodModel {
        ident: ident.to_string(),
        inputs: parse_inputs(sig),
        param_defaults: Vec::new(),
        per_param: Vec::new(),
        generic: None,
        class: None,
        preconditions: PreconditionOptions::default(),
    }
}

fn attrs(match_arg: bool, several_ok: bool, choices: Option<&[&str]>) -> ParamAttrs {
    ParamAttrs { match_arg, several_ok, choices: choices.map(strings) }
}

#[test]
fn test_method_context_static_call_no_args() {
    let m = method("new", "");
    let ctx = MethodContext::new(&m, "C_Test");
    let call = ctx.static_call();
    assert_eq!(call, ".Call(C_Test, .call = match.call())");
    assert!(call.contains(".Call"));
}

#[test]
fn static_and_instance_calls() {
    let m = method("add", "&self, value: i32, _step: Missing<i32>");
    let ctx = MethodContext::new(&m, "C_Counter__add");
    assert_eq!(ctx.params, "value, step");
    assert_eq!(ctx.args, "value, if (missing(step)) quote(expr=) else step");
    assert_eq!(
        ctx.instance_call("self"),
        ".Call(C_Counter__add, .call = match.call(), self, value, if (missing(step)) quote(expr=) else step)"
    );
    assert_eq!(
        ctx.instance_call_null_attr("x@ptr"),
        ".Call(C_Counter__add, .call = NULL, x@ptr, value, if (missing(step)) quote(expr=) else step)"
    );
    assert_eq!(
        ctx.static_call(),
        ".Call(C_Counter__add, .call = match.call(), value, if (missing(step)) quote(expr=) else step)"
    );
}

#[test]
fn instance_formals_variants() {
    let m = method("add", "&self, value: i32");
    let ctx = MethodContext::new(&m, "C_Counter__add");
    assert_eq!(ctx.instance_formals(true), "x, value, ...");
    assert_eq!(ctx.instance_formals(false), "value");
    assert_eq!(ctx.instance_formals_with_dots(true, false), "x, value");
    let empty = method("get", "&self");
    let ctx = MethodContext::new(&empty, "C_Counter__get");
    assert_eq!(ctx.instance_formals(true), "x, ...");
    assert_eq!(ctx.instance_formals_with_dots(true, false), "x");
    assert_eq!(ctx.instance_formals(false), "");
}

#[test]
fn generic_and_class_overrides() {
    let mut m = method("show_me", "&self");
    let ctx = MethodContext::new(&m, "C_T__show_me");
    assert_eq!(ctx.generic_name(), "show_me");
    assert!(!ctx.has_generic_override());
    assert_eq!(ctx.class_suffix(), None);
    assert!(!ctx.has_class_override());
    m.generic = Some("print".to_string());
    m.class = Some("my_class.my_class".to_string());
    let ctx = MethodContext::new(&m, "C_T__show_me");
    assert_eq!(ctx.generic_name(), "print");
    assert!(ctx.has_generic_override());
    assert_eq!(ctx.class_suffix(), Some("my_class.my_class"));
    assert!(ctx.has_class_override());
}

#[test]
fn match_arg_formal_is_the_placeholder_even_over_a_default() {
    let mut m = method("set_mode", "&self, mode: Mode, level: Level, n: i32");
    m.param_defaults = vec![("mode".to_string(), "\"fast\"".to_string()), ("n".to_string(), "1L".to_string())];
    m.per_param = vec![
        ("mode".to_string(), attrs(true, false, None)),
        ("level".to_string(), attrs(false, false, Some(&["low", "high"]))),
    ];
    let ctx = MethodContext::new(&m, "C_T__set_mode");
    assert_eq!(
        ctx.params,
        format!("mode = {}, level = c(\"low\", \"high\"), n = 1L", match_arg_placeholder("C_T__set_mode", "mode"))
    );
    assert_eq!(ctx.params, "mode = .__MX_MATCH_ARG_CHOICES_C_T__set_mode__mode__, level = c(\"low\", \"high\"), n = 1L");
}

#[test]
fn author_default_beats_choices() {
    let mut m = method("f", "level: Level");
    m.param_defaults = vec![("level".to_string(), "\"high\"".to_string())];
    m.per_param = vec![("level".to_string(), attrs(false, false, Some(&["low", "high"])))];
    let ctx = MethodContext::new(&m, "C_f");
    assert_eq!(ctx.params, "level = \"high\"");
}

#[test]
fn match_arg_prelude_lines() {
    let mut m = method("f", "mode: Mode, modes: Vec<Mode>, level: String, levels: Vec<String>");
    m.per_param = vec![
        ("mode".to_string(), attrs(true, false, None)),
        ("modes".to_string(), attrs(true, true, None)),
        ("level".to_string(), attrs(false, false, Some(&["a", "b"]))),
        ("levels".to_string(), attrs(false, true, Some(&["a", "b"]))),
    ];
    let ctx = MethodContext::new(&m, "C_f");
    assert_eq!(
        ctx.match_arg_prelude(),
        vec![
            "mode <- if (is.factor(mode)) as.character(mode) else mode",
            "mode <- base::match.arg(mode)",
            "modes <- if (is.factor(modes)) as.character(modes) else modes",
            "modes <- base::match.arg(modes, several.ok = TRUE)",
            "level <- match.arg(level)",
            "levels <- match.arg(levels, several.ok = TRUE)",
        ]
    );
    let plain = method("g", "x: i32");
    assert!(MethodContext::new(&plain, "C_g").match_arg_prelude().is_empty());
}

#[test]
fn match_arg_doc_placeholders_by_r_name() {
    let mut m = method("f", "_mode: Mode, n: i32");
    m.per_param = vec![("_mode".to_string(), attrs(true, false, None)), ("n".to_string(), attrs(false, false, None))];
    let ctx = MethodContext::new(&m, "C_f");
    let map = ctx.match_arg_doc_placeholders();
    assert_eq!(map, vec![("mode".to_string(), match_arg_param_doc_placeholder("C_f", "mode"))]);
    assert_eq!(map[0].1, ".__MX_MATCH_ARG_DOC_C_f__mode__");
}

#[test]
fn precondition_checks_skip_match_arg_params() {
    let mut m = method("f", "&self, mode: String, n: i32");
    m.per_param = vec![("mode".to_string(), attrs(true, false, None))];
    let ctx = MethodContext::new(&m, "C_f");
    assert_eq!(
        ctx.precondition_checks(),
        vec![
            "if (!isTRUE(is.integer(n))) .miniextendr_arg_error(\"n\", \"must be integer\")",
            "if (!isTRUE(length(n) == 1L)) .miniextendr_arg_error(\"n\", \"must have length 1\")",
        ]
    );
}

#[test]
fn precondition_checks_keep_named_checks_of_match_arg_params() {
    let mut m = method("f", "mode: String");
    m.per_param = vec![("mode".to_string(), attrs(true, false, None))];
    m.preconditions.explicit =
        vec![("mode".to_string(), ExplicitChecks { no_na: true, ..Default::default() })];
    let ctx = MethodContext::new(&m, "C_f");
    assert_eq!(
        ctx.precondition_checks(),
        vec!["if (!isTRUE(!anyNA(mode))) .miniextendr_arg_error(\"mode\", \"must not be NA\")"]
    );
}

#[test]
fn missing_prelude_skips_defaulted_params() {
    let mut m = method("f", "a: Missing<i32>, b: Missing<f64>, c: i32");
    m.param_defaults = vec![("b".to_string(), "1".to_string())];
    let ctx = MethodContext::new(&m, "C_f");
    assert_eq!(ctx.missing_prelude(), vec!["if (missing(a)) a <- quote(expr=)"]);
}

#[test]
fn bare_identifiers_and_class_refs() {
    assert!(is_bare_identifier("Counter"));
    assert!(is_bare_identifier("_a1"));
    assert!(!is_bare_identifier(""));
    assert!(!is_bare_identifier("1a"));
    assert!(!is_bare_identifier("pkg::Class"));
    assert!(!is_bare_identifier("a.b"));
    assert_eq!(class_ref_or_verbatim("Counter"), ".__MX_CLASS_REF_Counter__");
    assert_eq!(class_ref_or_verbatim("pkg::Class"), "pkg::Class");
}

#[test]
fn class_doc_default_header() {
    let tags = strings(&["@description A counter."]);
    let lines = ClassDocBuilder::new("Counter", "Counter", &tags, "R6").with_imports("@importFrom R6 R6Class").build();
    assert_eq!(
        lines,
        vec![
            "#' @title Counter R6 Class",
            "#' @name Counter",
            "#' @rdname Counter",
            "#' @description A counter.",
            "#' @source Generated by miniextendr from Rust type `Counter`",
            "#' @importFrom R6 R6Class",
            "#' @export",
        ]
    );
}

#[test]
fn class_doc_respects_author_tags_and_flags() {
    let tags = strings(&["@title My counter", "@name Ctr", "@rdname counters", "@export"]);
    let lines = ClassDocBuilder::new("Counter", "Counter", &tags, "Env").build();
    assert_eq!(
        lines,
        vec![
            "#' @title My counter",
            "#' @name Ctr",
            "#' @rdname counters",
            "#' @export",
            "#' @source Generated by miniextendr from Rust type `Counter`",
        ]
    );
    let none: Vec<String> = Vec::new();
    let internal = ClassDocBuilder::new("C", "C", &none, "S3").with_export_control(true, false).build();
    assert_eq!(internal.last().unwrap(), "#' @keywords internal");
    assert!(!internal.iter().any(|l| l == "#' @export"));
    let noexport = ClassDocBuilder::new("C", "C", &none, "S3").with_export_control(false, true).build();
    assert!(!noexport.iter().any(|l| l == "#' @export" || l == "#' @keywords internal"));
}

#[test]
fn class_doc_no_rd_keeps_only_author_tags() {
    let tags = strings(&["@noRd"]);
    let lines = ClassDocBuilder::new("Counter", "Counter", &tags, "R6")
        .with_imports("@importFrom R6 R6Class")
        .with_export_control(true, false)
        .build();
    assert_eq!(lines, vec!["#' @noRd"]);
}

#[test]
fn method_doc_default_lines() {
    let tags = strings(&["@param n How many"]);
    let lines = MethodDocBuilder::new("Counter", "inc", "Counter", &tags)
        .with_name_prefix("$")
        .with_r_params("n, by = 1L, ...")
        .build();
    assert_eq!(
        lines,
        vec![
            "#' @param n How many",
            "#' @param by (undocumented)",
            "#' @name Counter$inc",
            "#' @rdname Counter",
            "#' @source Generated by miniextendr from `Counter::inc`",
        ]
    );
}

#[test]
fn method_doc_class_no_rd() {
    let tags = strings(&["@param n How many"]);
    let lines = MethodDocBuilder::new("Counter", "inc", "Counter", &tags).with_class_no_rd(true).build();
    assert_eq!(lines, vec!["#' @noRd"]);
}

#[test]
fn method_doc_params_as_details() {
    let tags = strings(&["@description Adds.", "@param n How  many", "@param flag"]);
    let lines = MethodDocBuilder::new("Counter", "inc", "Counter", &tags).with_params_as_details().build();
    assert_eq!(
        lines,
        vec![
            "#' @description Adds.",
            "#'",
            "#' \\describe{",
            "#'   \\item{\\code{n}}{How  many}",
            "#'   \\item{\\code{flag}}{}",
            "#' }",
            "#' @name inc",
            "#' @rdname Counter",
            "#' @source Generated by miniextendr from `Counter::inc`",
        ]
    );
}

#[test]
fn method_doc_params_as_details_after_title() {
    let tags = strings(&["@title Add", "@param n How many"]);
    let lines = MethodDocBuilder::new("Counter", "inc", "Counter", &tags).with_params_as_details().build();
    assert_eq!(&lines[..4], &["#' @title Add", "#' \\describe{", "#'   \\item{\\code{n}}{How many}", "#' }"]);
}

#[test]
fn method_doc_suppress_params_and_overrides() {
    let tags = strings(&["@param x An object", "@params y", "@return Nothing", "@name custom"]);
    let lines = MethodDocBuilder::new("Shape", "area", "Shape", &tags)
        .with_suppress_params()
        .with_r_name("shape_area".to_string())
        .build();
    assert_eq!(
        lines,
        vec![
            "#' @return Nothing",
            "#' @name custom",
            "#' @rdname Shape",
            "#' @source Generated by miniextendr from `Shape::area`",
        ]
    );
    let none: Vec<String> = Vec::new();
    let lines = MethodDocBuilder::new("Shape", "area", "Shape", &none).with_r_name("shape_area".to_string()).build();
    assert_eq!(lines[0], "#' @name shape_area");
}

#[test]
fn method_doc_match_arg_placeholder_for_undocumented_param() {
    let none: Vec<String> = Vec::new();
    let placeholders = vec![("mode".to_string(), ".__MX_MATCH_ARG_DOC_C_f__mode__".to_string())];
    let lines = MethodDocBuilder::new("T", "f", "T", &none)
        .with_r_params("self, .ptr, mode = x, n")
        .with_match_arg_doc_placeholders(&placeholders)
        .build();
    assert_eq!(
        &lines[..2],
        &["#' @param mode .__MX_MATCH_ARG_DOC_C_f__mode__", "#' @param n (undocumented)"]
    );
}

#[test]
fn method_source_comment() {
    let m = method("add", "&mut self, value: i32");
    let ctx = MethodContext::new(&m, "C_Counter__add");
    assert_eq!(ctx.source_comment("Counter", 42, 4), "# Counter::add (42:5)");
    assert_eq!(ctx.source_comment("Counter", 7, 0), "# Counter::add (7:1)");
}

#[test]
fn trait_method_context_builds_calls_like_inherent_methods() {
    let m = method("add", "&mut self, value: i32");
    let ctx = miniextendr_macros::trait_r_wrappers::TraitMethodContext::new(&m, "C_Foo__Bar__add");
    let inherent = MethodContext::new(&m, "C_Foo__Bar__add");
    assert_eq!(ctx.instance_call(".ptr"), inherent.instance_call(".ptr"));
    assert_eq!(ctx.params, "value");
    // The receiver is passed directly: a parameter starting with `x` is untouched.
    let m = method("scale", "&self, x_factor: f64");
    let ctx = miniextendr_macros::trait_r_wrappers::TraitMethodContext::new(&m, "C_Foo__Bar__scale");
    assert!(ctx.instance_call("self@.ptr").contains("self@.ptr, x_factor"));
}
