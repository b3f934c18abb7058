use miniextendr_macros::r_preconditions::{
    build_precondition_checks, coerce_widened, conversion_expectation, r_check_for_type, r_string_escape,
    ExplicitChecks, PreconditionOptions, PreconditionOutput, RAssertion,
};
use miniextendr_macros::types::{GenericArg, Param, Segment, SegmentArgs, TypeModel};

fn array_len(len: &syn::Expr) -> Option<usize> {
    match len {
        syn::Expr::Lit(syn::ExprLit { lit: syn::Lit::Int(n), .. }) => n.base10_parse::<usize>().ok(),
        _ => None,
    }
}

fn to_type(ty: &syn::Type) -> TypeModel {
    match ty {
        syn::Type::Path(tp) => TypeModel::Path(
            tp.path
                .segments
                .iter()
                .map(|s| Segment {
                    ident: s.ident.to_string(),
                    args: match &s.arguments {
                        syn::PathArguments::None => SegmentArgs::Bare,
                        syn::PathArguments::AngleBracketed(a) => SegmentArgs::Angle(
                            a.args
                                .iter()
                                .map(|g| match g {
                                    syn::GenericArgument::Type(t) => GenericArg::Type(to_type(t)),
                                    _ => GenericArg::Other,
                                })
                                .collect(),
                        ),
                        syn::PathArguments::Parenthesized(_) => SegmentArgs::Paren,
                    },
                })
                .collect(),
        ),
        syn::Type::Reference(r) => TypeModel::Reference(r.mutability.is_some(), Box::new(to_type(&r.elem))),
        syn::Type::Slice(s) => TypeModel::Slice(Box::new(to_type(&s.elem))),
        syn::Type::Array(a) => TypeModel::Array(Box::new(to_type(&a.elem)), array_len(&a.len)),
        syn::Type::Paren(p) => TypeModel::Paren(Box::new(to_type(&p.elem))),
        syn::Type::Group(g) => TypeModel::Group(Box::new(to_type(&g.elem))),
        syn::Type::Tuple(t) => TypeModel::Tuple(t.elems.iter().map(to_type).collect()),
        _ => TypeModel::Other,
    }
}

fn parse_type(s: &str) -> TypeModel {
    to_type(&syn::parse_str::<syn::Type>(s).unwrap())
}

fn parse_sig(s: &str) -> Vec<Param> {
    let sig: syn::Signature = syn::parse_str(s).unwrap();
    sig.inputs
        .iter()
        .map(|arg| match arg {
            syn::FnArg::Receiver(_) => Param::Receiver,
            syn::FnArg::Typed(pt) => Param::Typed {
                name: match pt.pat.as_ref() {
                    syn::Pat::Ident(pi) => Some(pi.ident.to_string()),
                    _ => None,
                },
                ty: to_type(&pt.ty),
            },
        })
        .collect()
}

fn assertions_for(ty_str: &str, param: &str) -> Vec<RAssertion> {
    let ty = parse_type(ty_str);
    r_check_for_type(&ty).unwrap().assertions(param)
}

#[test]
fn scalar_numeric_produces_two_assertions() {
    let asserts = assertions_for("i64", "x");
    assert_eq!(asserts.len(), 2);
    assert_eq!(asserts[0].message(), "'x' must be numeric, logical, or raw");
    assert_eq!(
        asserts[0].condition,
        "is.numeric(x) || is.logical(x) || is.raw(x)"
    );
    assert_eq!(asserts[1].message(), "'x' must have length 1");
    assert_eq!(asserts[1].condition, "length(x) == 1L");
}

#[test]
fn native_scalars_use_their_storage_gate() {
    // `i32` / `f64` accept one SEXPTYPE only, and their check names it (#1112).
    let asserts = assertions_for("i32", "x");
    assert_eq!(asserts.len(), 2);
    assert_eq!(asserts[0].message(), "'x' must be integer");
    assert_eq!(asserts[0].condition, "is.integer(x)");
    let asserts = assertions_for("f64", "x");
    assert_eq!(asserts[0].message(), "'x' must be double");
    assert_eq!(asserts[0].condition, "is.double(x)");
    let asserts = assertions_for("Vec<f64>", "x");
    assert_eq!(asserts.len(), 1);
    assert_eq!(asserts[0].condition, "is.double(x)");
    let asserts = assertions_for("&[f64]", "x");
    assert_eq!(asserts[0].condition, "is.double(x)");
}

#[test]
fn all_signed_numeric_types_use_scalar_numeric() {
    for ty_str in &["f32", "i8", "i16", "i64", "isize"] {
        let asserts = assertions_for(ty_str, "x");
        assert_eq!(asserts.len(), 2, "{} should produce 2 assertions", ty_str);
        assert!(
            asserts[0].condition.contains("is.numeric(x)"),
            "{} type check",
            ty_str
        );
        assert!(
            asserts[0].condition.contains("is.logical(x)"),
            "{} accepts logical",
            ty_str
        );
        assert!(
            asserts[0].condition.contains("is.raw(x)"),
            "{} accepts raw",
            ty_str
        );
    }
}

#[test]
fn scalar_non_neg_produces_three_assertions() {
    let asserts = assertions_for("u32", "n");
    assert_eq!(asserts.len(), 3);
    assert_eq!(asserts[0].message(), "'n' must be numeric, logical, or raw");
    assert_eq!(asserts[1].message(), "'n' must have length 1");
    assert_eq!(asserts[2].message(), "'n' must be non-negative");
    assert_eq!(asserts[2].condition, "is.raw(n) || n >= 0");
}

#[test]
fn all_unsigned_types_use_scalar_non_neg() {
    for ty_str in &["u16", "u32", "u64", "usize"] {
        let asserts = assertions_for(ty_str, "x");
        assert_eq!(asserts.len(), 3, "{} should produce 3 assertions", ty_str);
        assert!(
            asserts[2].condition.contains(">= 0"),
            "{} non-neg check",
            ty_str
        );
    }
}

#[test]
fn scalar_logical() {
    let asserts = assertions_for("bool", "x");
    assert_eq!(asserts.len(), 2);
    assert_eq!(asserts[0].message(), "'x' must be logical");
    assert_eq!(asserts[0].condition, "is.logical(x)");
    assert_eq!(asserts[1].condition, "length(x) == 1L");
}

#[test]
fn scalar_character() {
    for ty_str in &["String", "char", "PathBuf"] {
        let asserts = assertions_for(ty_str, "s");
        assert_eq!(asserts.len(), 2);
        assert_eq!(asserts[0].message(), "'s' must be character");
        assert_eq!(asserts[0].condition, "is.character(s)");
    }
}

#[test]
fn ref_str() {
    let ty = parse_type("& str");
    let asserts = r_check_for_type(&ty).unwrap().assertions("s");
    assert_eq!(asserts.len(), 2);
    assert_eq!(asserts[0].condition, "is.character(s)");
}

#[test]
fn scalar_raw() {
    let asserts = assertions_for("u8", "x");
    assert_eq!(asserts.len(), 2);
    assert_eq!(asserts[0].message(), "'x' must be raw");
    assert_eq!(asserts[0].condition, "is.raw(x)");
}

#[test]
fn vector_float_stays_loose() {
    // `Vec<f32>` coerces from every numeric source, so it keeps the loose predicate.
    let asserts = assertions_for("Vec<f32>", "x");
    assert_eq!(asserts.len(), 1);
    assert_eq!(
        asserts[0].condition,
        "is.numeric(x) || is.logical(x) || is.raw(x)"
    );
}

#[test]
fn vector_i32_is_intsxp_strict() {
    // `Vec<i32>` is the only INTSXP-only integer vector: the native inbound
    // conversion rejects REALSXP, so the R gate is `is.integer(x)` — a clean
    // boundary rejection for any double (issue #616).
    let asserts = assertions_for("Vec<i32>", "x");
    assert_eq!(asserts.len(), 1);
    assert_eq!(asserts[0].condition, "is.integer(x)");
    assert_eq!(asserts[0].message(), "'x' must be an integer vector");
}

#[test]
fn vector_integer_wide_is_lossless() {
    // Every non-i32 integer element type uses the coercing inbound path that
    // accepts whole REALSXP and rejects fractional → lossless whole-number gate.
    for ty_str in &[
        "Vec<i8>",
        "Vec<i16>",
        "Vec<u16>",
        "Vec<u32>",
        "Vec<i64>",
        "Vec<u64>",
        "Vec<isize>",
        "Vec<usize>",
    ] {
        let asserts = assertions_for(ty_str, "x");
        assert_eq!(asserts.len(), 1, "{} should produce 1 assertion", ty_str);
        assert_eq!(
            asserts[0].condition,
            "is.integer(x) || is.logical(x) || is.raw(x) || \
             (is.numeric(x) && all(is.na(x) | x == trunc(x)))",
            "{}",
            ty_str
        );
        assert_eq!(
            asserts[0].message(),
            "'x' must be integer or whole-number numeric"
        );
    }
}

#[test]
fn slice_int_is_strict() {
    let ty = parse_type("& [i32]");
    let asserts = r_check_for_type(&ty).unwrap().assertions("x");
    assert_eq!(asserts.len(), 1);
    assert_eq!(asserts[0].condition, "is.integer(x)");
}

#[test]
fn coerced_native_int_widens_to_whole_number_gate() {
    let ty = parse_type("i32");
    let asserts = coerce_widened(r_check_for_type(&ty).unwrap(), &ty).assertions("x");
    assert_eq!(asserts.len(), 2);
    assert_eq!(
        asserts[0].message(),
        "'x' must be integer or whole-number numeric"
    );
    assert!(asserts[0].condition.contains("x == trunc(x)"));
    assert_eq!(asserts[1].condition, "length(x) == 1L");

    let ty = parse_type("Vec<i32>");
    let asserts = coerce_widened(r_check_for_type(&ty).unwrap(), &ty).assertions("x");
    assert_eq!(asserts.len(), 1);
    assert!(asserts[0].condition.contains("x == trunc(x)"));

    // Native doubles move from `is.double` to the loose numeric gate;
    // borrowed slices have no mapping and stay strict.
    for name in ["f64", "Vec<f64>"] {
        let ty = parse_type(name);
        let actual = coerce_widened(r_check_for_type(&ty).unwrap(), &ty).assertions("x");
        assert_eq!(
            actual[0].condition, "is.numeric(x) || is.logical(x) || is.raw(x)",
            "{name}"
        );
    }
    let ty = parse_type("&[i32]");
    let actual = coerce_widened(r_check_for_type(&ty).unwrap(), &ty).assertions("x");
    assert_eq!(actual[0].condition, "is.integer(x)");
}

#[test]
fn coerced_numeric_and_optional_checks_are_preserved() {
    for name in ["Vec<u16>", "Vec<f32>", "Option<bool>"] {
        let ty = parse_type(name);
        let expected = r_check_for_type(&ty).unwrap().assertions("x");
        let actual = coerce_widened(r_check_for_type(&ty).unwrap(), &ty).assertions("x");
        assert_eq!(actual.len(), expected.len());
        for (actual, expected) in actual.iter().zip(&expected) {
            assert_eq!(actual.condition, expected.condition);
        }
    }
}

#[test]
fn coerced_bool_checks_accept_logical_and_integer() {
    for name in ["bool", "Vec<bool>"] {
        let ty = parse_type(name);
        let actual = coerce_widened(r_check_for_type(&ty).unwrap(), &ty).assertions("x");
        assert_eq!(actual[0].condition, "is.logical(x) || is.integer(x)");
        assert_eq!(actual.len(), if name == "bool" { 2 } else { 1 });
    }
}

#[test]
fn build_checks_coerced_param_preserves_whole_number_check() {
    let sig = parse_sig("fn f(x: Vec<u16>)");
    let coerce_params = vec!["x".to_string()];
    let opts = PreconditionOptions {
        coerce_params,
        ..Default::default()
    };
    let output = build_precondition_checks(&sig, &[], &opts);
    let joined = output.guards(None).join("\n");
    assert!(joined.contains("is.integer(x)"));
    assert!(joined.contains("trunc(x)"));
}

/// Every check is one guard raising the shared argument error (#1591):
/// the wrapper's own call by default, the captured `.mx_call` under
/// `call = caller` (#1548). The requirement leaves out the parameter name,
/// which the helper puts in front.
#[test]
fn guards_raise_the_argument_error_with_the_given_call() {
    let sig = parse_sig("fn f(n: i32, xs: Vec<f64>)");
    let output = build_precondition_checks(
        &sig,
        &[],
        &PreconditionOptions::default(),
    );
    assert_eq!(
        output.guards(None),
        vec![
            "if (!isTRUE(is.integer(n))) .miniextendr_arg_error(\"n\", \"must be integer\")",
            "if (!isTRUE(length(n) == 1L)) .miniextendr_arg_error(\"n\", \"must have length 1\")",
            "if (!isTRUE(is.double(xs))) .miniextendr_arg_error(\"xs\", \"must be double\")",
        ]
    );
    assert_eq!(
        output.guards(Some(".mx_call")),
        vec![
            "if (!isTRUE(is.integer(n))) .miniextendr_arg_error(\"n\", \"must be integer\", .mx_call)",
            "if (!isTRUE(length(n) == 1L)) .miniextendr_arg_error(\"n\", \"must have length 1\", .mx_call)",
            "if (!isTRUE(is.double(xs))) .miniextendr_arg_error(\"xs\", \"must be double\", .mx_call)",
        ]
    );
    let no_params = parse_sig("fn g()");
    let empty = build_precondition_checks(
        &no_params,
        &[],
        &PreconditionOptions::default(),
    );
    assert!(empty.guards(None).is_empty());
    assert!(empty.guards(Some(".mx_call")).is_empty());
}

/// The conversion-side expectation (#1591) reads the same classification:
/// scalars name one value, vectors the R type, `Option` adds `NULL`,
/// `coerce` widens it as it widens the check, and types without a check have none.
#[test]
fn conversion_expectation_follows_the_type_check() {
    let exp = |ty: &str, coerced: bool| conversion_expectation(&parse_type(ty), coerced);
    let some = |s: &str| Some(s.to_string());
    assert_eq!(exp("AsNumericVec", false), some("numeric"));
    assert_eq!(exp("AsNumeric", false), some("a single number"));
    assert_eq!(
        exp("Option<AsNumeric>", false),
        some("NULL or a single number")
    );
    assert_eq!(exp("i32", false), some("a single integer"));
    assert_eq!(exp("i32", true), some("a single whole number"));
    assert_eq!(exp("f64", false), some("a single double"));
    assert_eq!(exp("f64", true), some("a single number"));
    assert_eq!(exp("i64", false), some("a single number"));
    assert_eq!(exp("u32", false), some("a single non-negative number"));
    assert_eq!(exp("bool", false), some("TRUE or FALSE"));
    assert_eq!(exp("Option<bool>", false), some("NULL, TRUE or FALSE"));
    assert_eq!(exp("bool", true), some("a single logical or integer"));
    assert_eq!(exp("String", false), some("a single string"));
    assert_eq!(exp("&str", false), some("a single string"));
    assert_eq!(exp("u8", false), some("a single raw value"));
    assert_eq!(exp("Rcomplex", false), some("a single complex value"));
    assert_eq!(exp("Vec<i32>", false), some("integer"));
    assert_eq!(
        exp("Vec<i32>", true),
        some("integer or whole-number numeric")
    );
    assert_eq!(
        exp("Vec<u16>", false),
        some("integer or whole-number numeric")
    );
    assert_eq!(exp("Vec<f64>", false), some("double"));
    assert_eq!(exp("&[f64]", false), some("double"));
    assert_eq!(exp("Vec<Option<String>>", false), some("character"));
    assert_eq!(exp("Vec<bool>", true), some("logical or integer"));
    assert_eq!(exp("HashMap<String, i32>", false), some("a list"));
    assert_eq!(exp("Missing<f64>", false), some("a single double"));
    // Choice parameters, including the `Missing` / `Option` / `Either`
    // layers of #1551, have no expectation: their conversion errors read
    // `invalid '<p>' argument: <reason>`.
    for unknown in [
        "Hyperparams",
        "Either<i32, String>",
        "AsFromStrVec<i32>",
        "SEXP",
        "Mode",
        "Option<Mode>",
        "Missing<Option<Mode>>",
        "Missing<Vec<Mode>>",
        "Either<Route, DataFrame>",
        "Option<Either<Route, DataFrame>>",
        "Missing<Option<Either<Mode, List>>>",
    ] {
        assert_eq!(exp(unknown, false), None, "{unknown}");
    }
}

#[test]
fn vector_character() {
    let asserts = assertions_for("Vec<String>", "x");
    assert_eq!(asserts.len(), 1);
    assert_eq!(asserts[0].condition, "is.character(x)");
}

#[test]
fn vector_optional_string() {
    let asserts = assertions_for("Vec<Option<String>>", "x");
    assert_eq!(asserts.len(), 1);
    assert_eq!(asserts[0].condition, "is.character(x)");
}

#[test]
fn slice_u8() {
    let ty = parse_type("& [u8]");
    let asserts = r_check_for_type(&ty).unwrap().assertions("x");
    assert_eq!(asserts.len(), 1);
    assert_eq!(asserts[0].condition, "is.raw(x)");
}

#[test]
fn nullable_wraps_inner_assertions() {
    let asserts = assertions_for("Option<i64>", "x");
    assert_eq!(asserts.len(), 2);
    assert_eq!(
        asserts[0].message(),
        "'x' must be NULL or numeric, logical, or raw"
    );
    assert_eq!(
        asserts[0].condition,
        "is.null(x) || is.numeric(x) || is.logical(x) || is.raw(x)"
    );
    let asserts = assertions_for("Option<i32>", "x");
    assert_eq!(asserts[0].condition, "is.null(x) || is.integer(x)");
    assert_eq!(asserts[1].message(), "'x' must be NULL or have length 1");
    assert_eq!(asserts[1].condition, "is.null(x) || length(x) == 1L");
}

#[test]
fn nullable_character() {
    let asserts = assertions_for("Option<String>", "s");
    assert_eq!(asserts.len(), 2);
    assert_eq!(asserts[0].message(), "'s' must be NULL or character");
    assert_eq!(asserts[0].condition, "is.null(s) || is.character(s)");
    assert_eq!(asserts[1].message(), "'s' must be NULL or have length 1");
}

#[test]
fn as_numeric_markers_admit_numbers_text_and_factors() {
    let condition = "is.numeric(x) || is.logical(x) || is.character(x) || is.factor(x)";
    let asserts = assertions_for("AsNumeric", "x");
    assert_eq!(asserts.len(), 2);
    assert_eq!(
        asserts[0].message(),
        "'x' must be numeric, logical, character, or factor"
    );
    assert_eq!(asserts[0].condition, condition);
    assert_eq!(asserts[1].message(), "'x' must have length 1");
    assert_eq!(asserts[1].condition, "length(x) == 1L");

    // Path-qualified spellings resolve by their last segment.
    let asserts = assertions_for("miniextendr_api::AsNumericVec", "x");
    assert_eq!(asserts.len(), 1);
    assert_eq!(
        asserts[0].message(),
        "'x' must be numeric, logical, character, or factor"
    );
    assert_eq!(asserts[0].condition, condition);
}

#[test]
fn optional_as_numeric_is_nullable() {
    let asserts = assertions_for("Option<AsNumeric>", "x");
    assert_eq!(asserts.len(), 2);
    assert_eq!(
        asserts[0].message(),
        "'x' must be NULL or numeric, logical, character, or factor"
    );
    assert_eq!(
        asserts[0].condition,
        "is.null(x) || is.numeric(x) || is.logical(x) || is.character(x) || is.factor(x)"
    );
    assert_eq!(asserts[1].message(), "'x' must be NULL or have length 1");
    let asserts = assertions_for("Option<AsNumericVec>", "x");
    assert_eq!(asserts.len(), 1);
    assert!(asserts[0].condition.starts_with("is.null(x) || "));
}

#[test]
fn as_character_markers_admit_atomic_vectors() {
    let asserts = assertions_for("AsCharacter", "x");
    assert_eq!(asserts.len(), 2);
    assert_eq!(asserts[0].message(), "'x' must be atomic");
    assert_eq!(asserts[0].condition, "is.atomic(x)");
    assert_eq!(asserts[1].message(), "'x' must have length 1");
    assert_eq!(asserts[1].condition, "length(x) == 1L");

    // Path-qualified spellings resolve by their last segment.
    let asserts = assertions_for("miniextendr_api::AsCharacterVec", "x");
    assert_eq!(asserts.len(), 1);
    assert_eq!(asserts[0].message(), "'x' must be atomic");
    assert_eq!(asserts[0].condition, "is.atomic(x)");
}

#[test]
fn optional_as_character_is_nullable() {
    let asserts = assertions_for("Option<AsCharacter>", "x");
    assert_eq!(asserts.len(), 2);
    assert_eq!(asserts[0].message(), "'x' must be NULL or atomic");
    assert_eq!(asserts[0].condition, "is.null(x) || is.atomic(x)");
    assert_eq!(asserts[1].message(), "'x' must be NULL or have length 1");
    let asserts = assertions_for("Option<AsCharacterVec>", "x");
    assert_eq!(asserts.len(), 1);
    assert_eq!(asserts[0].message(), "'x' must be NULL or atomic");
    assert_eq!(asserts[0].condition, "is.null(x) || is.atomic(x)");
}

#[test]
fn coerce_keeps_the_as_numeric_gate() {
    // `AsNumeric` has no coercion mapping: `coerce` leaves its gate alone.
    let ty = parse_type("AsNumericVec");
    let check = coerce_widened(r_check_for_type(&ty).unwrap(), &ty);
    let asserts = check.assertions("x");
    assert_eq!(asserts.len(), 1);
    assert!(asserts[0].condition.contains("is.factor(x)"));
}

#[test]
fn map_types() {
    for ty_str in &["HashMap<String, i32>", "BTreeMap<String, f64>"] {
        let ty = parse_type(ty_str);
        let asserts = r_check_for_type(&ty).unwrap().assertions("x");
        assert_eq!(asserts.len(), 1);
        assert_eq!(asserts[0].condition, "is.list(x)");
    }
}

#[test]
fn skip_types() {
    for ty_str in &["SEXP", "ExternalPtr<MyType>"] {
        let ty = parse_type(ty_str);
        assert!(
            r_check_for_type(&ty).is_none(),
            "{} should be skipped",
            ty_str
        );
    }
}

#[test]
fn scalar_param_produces_one_guard_per_check() {
    let sig = parse_sig("fn f(n: i32)");
    let output = build_precondition_checks(
        &sig,
        &[],
        &PreconditionOptions::default(),
    );
    let checks = output.guards(None);
    assert_eq!(checks.len(), 2);
    assert!(checks[0].contains("\"must be integer\""));
    assert!(checks[1].contains("\"must have length 1\""));
    assert!(output.fallback_params.is_empty());
}

#[test]
fn vector_param_single_guard() {
    // Vec<f64> produces 1 check → one guard line
    let sig = parse_sig("fn f(x: Vec<f64>)");
    let output = build_precondition_checks(
        &sig,
        &[],
        &PreconditionOptions::default(),
    );
    assert_eq!(
        output.guards(None),
        vec!["if (!isTRUE(is.double(x))) .miniextendr_arg_error(\"x\", \"must be double\")"]
    );
}

#[test]
fn two_scalar_params_produce_four_guards_in_order() {
    let sig = parse_sig("fn f(a: i32, b: f64)");
    let output = build_precondition_checks(
        &sig,
        &[],
        &PreconditionOptions::default(),
    );
    let checks = output.guards(None);
    // 2 checks per param
    assert_eq!(checks.len(), 4);
    assert!(checks[0].contains("(\"a\", ") && checks[0].contains("integer"));
    assert!(checks[1].contains("(\"a\", ") && checks[1].contains("length 1"));
    assert!(checks[2].contains("(\"b\", ") && checks[2].contains("double"));
    assert!(checks[3].contains("(\"b\", ") && checks[3].contains("length 1"));
}

#[test]
fn build_checks_skips_match_arg() {
    let sig = parse_sig("fn f(n: i32, mode: String)");
    let skip = vec!["mode".to_string()];
    let output = build_precondition_checks(&sig, &skip, &PreconditionOptions::default());
    // Only n's 2 checks remain
    let joined = output.guards(None).join("\n");
    assert!(joined.contains("(\"n\", "));
    assert!(!joined.contains("mode"));
}

#[test]
fn unknown_type_produces_fallback() {
    let sig = parse_sig("fn f(x: MyCustomType)");
    let output = build_precondition_checks(
        &sig,
        &[],
        &PreconditionOptions::default(),
    );
    assert!(output.guards(None).is_empty());
    assert_eq!(output.fallback_params.len(), 1);
    assert_eq!(output.fallback_params[0].r_name, "x");
}

#[test]
fn mixed_known_and_unknown_types() {
    let sig = parse_sig("fn f(a: i32, b: MyType, c: String)");
    let output = build_precondition_checks(
        &sig,
        &[],
        &PreconditionOptions::default(),
    );
    // a (i32) and c (String) are known → checks
    let joined = output.guards(None).join("\n");
    assert!(joined.contains("(\"a\", "));
    assert!(joined.contains("(\"c\", "));
    assert!(!joined.contains("(\"b\", "));
    // b (MyType) is unknown → fallback
    assert_eq!(output.fallback_params.len(), 1);
    assert_eq!(output.fallback_params[0].r_name, "b");
}

#[test]
fn sexp_not_fallback() {
    let sig = parse_sig("fn f(x: SEXP)");
    let output = build_precondition_checks(
        &sig,
        &[],
        &PreconditionOptions::default(),
    );
    assert!(output.guards(None).is_empty());
    assert!(output.fallback_params.is_empty());
}

/// Build checks for `sig` with the given explicit checks keyed by R name.
fn explicit_output(
    sig: &str,
    explicit: &[(&str, ExplicitChecks)],
    no_type_checks: bool,
) -> PreconditionOutput {
    let sig = parse_sig(sig);
    let opts = PreconditionOptions {
        explicit: explicit
            .iter()
            .map(|(name, checks)| (name.to_string(), checks.clone()))
            .collect(),
        no_type_checks,
        ..Default::default()
    };
    build_precondition_checks(&sig, &[], &opts)
}

fn inherits(classes: &[&str]) -> ExplicitChecks {
    ExplicitChecks {
        inherits: Some(classes.iter().map(|c| c.to_string()).collect()),
        ..Default::default()
    }
}

fn no_na() -> ExplicitChecks {
    ExplicitChecks {
        no_na: true,
        ..Default::default()
    }
}

fn with_inherits_message(classes: &[&str], message: &str) -> ExplicitChecks {
    ExplicitChecks {
        inherits_message: Some(message.to_string()),
        ..inherits(classes)
    }
}

fn with_no_na_message(message: &str) -> ExplicitChecks {
    ExplicitChecks {
        no_na_message: Some(message.to_string()),
        ..no_na()
    }
}

#[test]
fn inherits_follows_the_type_check() {
    let out = explicit_output("fn f(x: List)", &[("x", inherits(&["pkg_obj"]))], false);
    assert_eq!(
        out.guards(None),
        vec![
            "if (!isTRUE(is.list(x))) .miniextendr_arg_error(\"x\", \"must be a list\")",
            "if (!isTRUE(inherits(x, \"pkg_obj\"))) .miniextendr_arg_error(\"x\", \"must inherit from 'pkg_obj'\")",
        ]
    );
}

#[test]
fn inherits_any_of_several_classes() {
    let out = explicit_output("fn f(x: SEXP)", &[("x", inherits(&["a", "b", "c"]))], false);
    assert_eq!(
        out.guards(None),
        vec![
            "if (!isTRUE(inherits(x, c(\"a\", \"b\", \"c\")))) .miniextendr_arg_error(\"x\", \"must inherit from 'a', 'b' or 'c'\")"
        ]
    );
}

#[test]
fn inherits_escapes_quotes_and_backslashes() {
    let out = explicit_output("fn f(x: SEXP)", &[("x", inherits(&["a\"b\\c"]))], false);
    assert_eq!(
        out.guards(None),
        vec![
            "if (!isTRUE(inherits(x, \"a\\\"b\\\\c\"))) .miniextendr_arg_error(\"x\", \"must inherit from 'a\\\"b\\\\c'\")"
        ]
    );
}

#[test]
fn no_na_wording_follows_the_shape() {
    let scalar = explicit_output("fn f(x: f64)", &[("x", no_na())], true);
    assert_eq!(
        scalar.guards(None),
        vec!["if (!isTRUE(!anyNA(x))) .miniextendr_arg_error(\"x\", \"must not be NA\")"]
    );
    let vector = explicit_output("fn f(x: Vec<f64>)", &[("x", no_na())], true);
    assert_eq!(
        vector.guards(None),
        vec!["if (!isTRUE(!anyNA(x))) .miniextendr_arg_error(\"x\", \"must not contain NA\")"]
    );
    let slice = explicit_output("fn f(x: &[f64])", &[("x", no_na())], true);
    assert!(slice.guards(None)[0].contains("must not contain NA"));
}

#[test]
fn explicit_checks_pass_null_and_missing() {
    let optional = explicit_output(
        "fn f(x: Option<List>)",
        &[("x", inherits(&["pkg_obj"]))],
        true,
    );
    assert_eq!(
        optional.guards(None),
        vec![
            "if (!isTRUE(is.null(x) || inherits(x, \"pkg_obj\"))) .miniextendr_arg_error(\"x\", \"must inherit from 'pkg_obj'\")"
        ]
    );
    let missing = explicit_output("fn f(x: Missing<f64>)", &[("x", no_na())], true);
    assert_eq!(
        missing.guards(None),
        vec![
            "if (!isTRUE(missing(x) || !anyNA(x))) .miniextendr_arg_error(\"x\", \"must not be NA\")"
        ]
    );
    let optional_vec = explicit_output("fn f(x: Option<Vec<f64>>)", &[("x", no_na())], true);
    assert!(optional_vec.guards(None)[0].contains("must not contain NA"));
}

#[test]
fn explicit_checks_survive_no_type_checks() {
    let both = ExplicitChecks {
        inherits: Some(vec!["pkg_obj".into()]),
        no_na: true,
        ..Default::default()
    };
    let out = explicit_output("fn f(n: i32, x: List)", &[("x", both)], true);
    // `n`'s type checks and `x`'s `is.list()` are gone; the named checks stay,
    // NA first.
    assert_eq!(
        out.guards(None),
        vec![
            "if (!isTRUE(!anyNA(x))) .miniextendr_arg_error(\"x\", \"must not be NA\")",
            "if (!isTRUE(inherits(x, \"pkg_obj\"))) .miniextendr_arg_error(\"x\", \"must inherit from 'pkg_obj'\")",
        ]
    );
    let none = explicit_output("fn f(n: i32)", &[], true);
    assert!(none.guards(None).is_empty());
}

#[test]
fn explicit_checks_apply_to_match_arg_params() {
    let sig = parse_sig("fn f(mode: String)");
    let opts = PreconditionOptions {
        explicit: [("mode".to_string(), no_na())].into_iter().collect(),
        ..Default::default()
    };
    let skip = vec!["mode".to_string()];
    let out = build_precondition_checks(&sig, &skip, &opts);
    assert_eq!(
        out.guards(None),
        vec!["if (!isTRUE(!anyNA(mode))) .miniextendr_arg_error(\"mode\", \"must not be NA\")"]
    );
}

#[test]
fn explicit_checks_take_the_caller_call() {
    let out = explicit_output("fn f(x: f64)", &[("x", no_na())], true);
    assert_eq!(
        out.guards(Some(".mx_call")),
        vec![
            "if (!isTRUE(!anyNA(x))) .miniextendr_arg_error(\"x\", \"must not be NA\", .mx_call)"
        ]
    );
}

#[test]
fn explicit_checks_merge() {
    let mut a = inherits(&["a"]);
    a.merge(no_na()).unwrap();
    a.merge(inherits(&["b"])).unwrap();
    assert_eq!(
        a,
        ExplicitChecks {
            inherits: Some(vec!["a".into(), "b".into()]),
            no_na: true,
            ..Default::default()
        }
    );
    assert!(ExplicitChecks::default().is_empty());

    // One message per check: it may come from either attribute, not both.
    let mut b = inherits(&["a"]);
    b.merge(with_inherits_message(&["b"], "one")).unwrap();
    assert_eq!(b.inherits_message.as_deref(), Some("one"));
    assert_eq!(b.inherits, Some(vec!["a".into(), "b".into()]));
    b.merge(with_no_na_message("two")).unwrap();
    assert_eq!(b.no_na_message.as_deref(), Some("two"));
    let err = b.merge(with_inherits_message(&["c"], "three")).unwrap_err();
    assert!(
        err.contains("`inherits`") && err.contains("more than one `message`"),
        "{err}"
    );
    let err = b.merge(with_no_na_message("four")).unwrap_err();
    assert!(err.contains("`no_na`"), "{err}");
}

/// The author's message replaces `'<p>' <requirement>` verbatim: the
/// helper gets it as `message = `, and the call, when there is one, by
/// name too (after a named `message` a positional call would bind to
/// `what`). One message covers every class of the check.
#[test]
fn custom_messages_are_passed_verbatim_by_name() {
    let checks = ExplicitChecks {
        inherits: Some(vec!["pkg_a".into(), "pkg_b".into()]),
        inherits_message: Some("`model` must be a `pkg_model`; see pkg_model().".into()),
        no_na: true,
        no_na_message: Some("no NA in `model`".into()),
    };
    let out = explicit_output("fn f(model: List)", &[("model", checks)], false);
    assert_eq!(
        out.guards(None),
        vec![
            "if (!isTRUE(is.list(model))) .miniextendr_arg_error(\"model\", \"must be a list\")",
            "if (!isTRUE(!anyNA(model))) .miniextendr_arg_error(\"model\", message = \"no NA in `model`\")",
            "if (!isTRUE(inherits(model, c(\"pkg_a\", \"pkg_b\")))) .miniextendr_arg_error(\"model\", message = \"`model` must be a `pkg_model`; see pkg_model().\")",
        ]
    );
    let caller = out.guards(Some(".mx_call"));
    assert!(
        caller[0].ends_with(".miniextendr_arg_error(\"model\", \"must be a list\", .mx_call)"),
        "{}",
        caller[0]
    );
    assert!(
        caller[1].ends_with(
            ".miniextendr_arg_error(\"model\", message = \"no NA in `model`\", call = .mx_call)"
        ),
        "{}",
        caller[1]
    );
    // The `Option` / `Missing` guards are unchanged.
    let optional = explicit_output(
        "fn f(x: Option<List>)",
        &[("x", with_inherits_message(&["pkg_obj"], "need a pkg_obj"))],
        true,
    );
    assert_eq!(
        optional.guards(None),
        vec![
            "if (!isTRUE(is.null(x) || inherits(x, \"pkg_obj\"))) .miniextendr_arg_error(\"x\", message = \"need a pkg_obj\")"
        ]
    );
    let asserts = with_no_na_message("mine").assertions("x", &parse_type("f64"));
    assert_eq!(asserts[0].message(), "mine");
}

/// A message is an R string literal: quotes, backslashes, newlines, tabs
/// and control characters are escaped, and non-ASCII text becomes
/// `\u{..}` / `\U{..}` escapes (R code in a package must be ASCII). `%`
/// needs nothing: the message never goes through `sprintf()`.
#[test]
fn custom_messages_are_escaped_as_r_string_literals() {
    let message = "say \"hi\" \\ back\nline\ttab 100% caf\u{e9} \u{1F600} bell\u{7}";
    let out = explicit_output("fn f(x: f64)", &[("x", with_no_na_message(message))], true);
    assert_eq!(
        out.guards(None),
        vec![
            r#"if (!isTRUE(!anyNA(x))) .miniextendr_arg_error("x", message = "say \"hi\" \\ back\nline\ttab 100% caf\u{e9} \U{1f600} bell\u{7}")"#
        ]
    );
    assert_eq!(r_string_escape("a\rb"), r"a\rb");
    assert_eq!(r_string_escape("plain 'text'"), "plain 'text'");
    // Class names take the same escaping.
    let out = explicit_output("fn f(x: SEXP)", &[("x", inherits(&["caf\u{e9}"]))], true);
    assert_eq!(
        out.guards(None),
        vec![
            r#"if (!isTRUE(inherits(x, "caf\u{e9}"))) .miniextendr_arg_error("x", "must inherit from 'caf\u{e9}'")"#
        ]
    );
}


#[test]
fn as_character_vec_with_no_na_checks_type_then_na_guards() {
    let out = explicit_output("fn f(x: AsCharacterVec)", &[("x", no_na())], false);
    assert_eq!(
        out.guards(None),
        vec![
            "if (!isTRUE(is.atomic(x))) .miniextendr_arg_error(\"x\", \"must be atomic\")",
            "if (!isTRUE(!anyNA(x))) .miniextendr_arg_error(\"x\", \"must not be NA\")",
        ]
    );
}

#[test]
fn escaped_messages_are_printable_ascii() {
    let escaped = r_string_escape("tab\there caf\u{e9} \u{1F600} nul-free \u{7f}");
    assert!(escaped.chars().all(|c| (' '..='~').contains(&c)), "{escaped}");
    assert_eq!(r_string_escape("\u{7f}"), "\\u{7f}");
}

#[test]
fn nullable_without_known_prefix_appends_or_null() {
    let a = RAssertion::new("x", "must inherit from 'a'", "inherits(x, \"a\")").nullable();
    assert_eq!(a.requirement, "must inherit from 'a' (or NULL)");
    assert_eq!(a.condition, "is.null(x) || inherits(x, \"a\")");
}

#[test]
fn explicit_checks_merge_keeps_first_message_on_error() {
    let mut a = with_inherits_message(&["a"], "one");
    let err = a.merge(with_inherits_message(&["b"], "two")).unwrap_err();
    assert_eq!(err, "`inherits` is given more than one `message` on this parameter; give it once");
    assert_eq!(a.inherits, Some(vec!["a".to_string()]));
    assert_eq!(a.inherits_message.as_deref(), Some("one"));
}

#[test]
fn merging_nothing_changes_nothing() {
    let mut a = with_no_na_message("m");
    let before = a.clone();
    a.merge(ExplicitChecks::default()).unwrap();
    assert_eq!(a, before);
    assert!(!a.is_empty());
}

#[test]
fn coerced_params_by_option() {
    let opts = PreconditionOptions { coerce_all: true, ..Default::default() };
    assert!(opts.is_coerced("anything"));
    let opts = PreconditionOptions { coerce_params: vec!["x".to_string()], ..Default::default() };
    assert!(opts.is_coerced("x"));
    assert!(!opts.is_coerced("y"));
}

#[test]
fn fallback_and_receiver_and_pattern_params() {
    let sig = parse_sig("fn f(&self, (a, b): (i32, i32), _x: Widget, y: &Dots, z: OwnedProtect)");
    let out = build_precondition_checks(&sig, &[], &PreconditionOptions::default());
    assert!(out.guards(None).is_empty());
    let names: Vec<&str> = out.fallback_params.iter().map(|f| f.r_name.as_str()).collect();
    assert_eq!(names, vec!["x"]);
}

#[test]
fn default_explicit_checks_are_empty() {
    assert!(ExplicitChecks::default().is_empty());
}

#[test]
fn plain_text_is_not_escaped() {
    assert_eq!(miniextendr_macros::r_preconditions::r_string_escape("must be a number"), "must be a number");
    assert_eq!(miniextendr_macros::r_preconditions::r_string_escape("a\"b\\c"), "a\\\"b\\\\c");
}
