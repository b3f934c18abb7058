use miniextendr_macros::trait_r_wrappers::{
    finish_instance_body, generate_trait_r_wrapper, reject_unsupported_describe_in, trait_env_r_wrapper,
    trait_r6_r_wrapper, trait_s3_r_wrapper, trait_s4_r_wrapper, trait_s7_r_wrapper, TraitWrapperConst,
    TraitWrapperMethod,
};
use miniextendr_macros::miniextendr_impl_trait::TraitWrapperOpts;
use miniextendr_macros::return_wrap::ClassSystem;

fn strings(v: &[&str]) -> Vec<String> {
    v.iter().map(|s| s.to_string()).collect()
}

fn method(r_name: &str, has_self: bool) -> TraitWrapperMethod {
    TraitWrapperMethod {
        r_name: r_name.to_string(),
        has_self,
        picks_page: false,
        page: "Counter".to_string(),
        joins_author_topic: false,
        order_tag: None,
        generic_guard: format!("if (!exists(\"{r_name}\", mode = \"function\")) {r_name} <- function(x, ...) UseMethod(\"{r_name}\")"),
        page_lines: strings(&["#' @rdname Counter"]),
        param_tags: strings(&["@param by Step"]),
        def_name: format!("{r_name}.Counter"),
        params: if has_self { "by".to_string() } else { String::new() },
        prelude: strings(&["  stopifnot(is.numeric(by))"]),
        body: strings(&["  .Call(C_Counter__Step__add, x, by)"]),
        returns_unit: false,
        invisible: false,
        namespace_target: format!("Counter$Step${r_name}"),
        rust_name: r_name.to_string(),
        ptr_body: strings(&["  .Call(C_Counter__Step__add, .ptr, by)"]),
        describes_in: false,
        param_names: if has_self { strings(&["by"]) } else { Vec::new() },
        no_shortcut: false,
        advisory: strings(&["#' Fast-path shortcut", "#' @description Calls the method directly."]),
        shortcut_formals: vec![("self".to_string(), false), ("by".to_string(), true), ("...".to_string(), false)],
        params_documented_elsewhere: false,
        shortcut_page_lines: strings(&["#' @rdname Counter"]),
        shortcut_source: Vec::new(),
        shortcut_body: strings(&["  .Call(C_Counter__Step__add, self@.ptr, by)"]),
    }
}

#[test]
fn s3_trait_wrapper_layout() {
    let text = trait_s3_r_wrapper(
        "Counter",
        "Step",
        &[method("add", true), method("create", false)],
        &[TraitWrapperConst { target: "Counter$Step$MAX".to_string(), doc_name: "Counter$Step$MAX".to_string(), c_ident: "C_Counter__Step__MAX".to_string() }],
    );
    let want = [
        "# S3 trait methods for Counter implementing Step",
        "# Generated by #[miniextendr(s3)] impl Step for Counter",
        "",
        "#' @title S3 generic for `add`",
        "#' @description S3 generic for `add`",
        "#' @name add.Counter",
        "#' @rdname Counter",
        "#' @param x An object",
        "#' @param ... Additional arguments passed to methods",
        "#' @export",
        "if (!exists(\"add\", mode = \"function\")) add <- function(x, ...) UseMethod(\"add\")",
        "",
        "#' @rdname Counter",
        "#' @method add Counter",
        "#' @param by Step",
        "#' @export",
        "add.Counter <- function(x, by, ...) {",
        "  stopifnot(is.numeric(by))",
        "  .Call(C_Counter__Step__add, x, by)",
        "}",
        "if (inherits(get0(\"add\", mode = \"function\"), \"S7_generic\")) {",
        "  S7::method(add, S7::new_S3_class(\"Counter\")) <- add.Counter",
        "}",
        "",
        "Counter$Step <- new.env(parent = emptyenv())",
        "",
        "#' Static trait method Step::create()",
        "#' @rdname Counter",
        "Counter$Step$create <- function() {",
        "  stopifnot(is.numeric(by))",
        "  .Call(C_Counter__Step__add, x, by)",
        "}",
        "",
        "#' @name Counter$Step$MAX",
        "#' @rdname Counter",
        "Counter$Step$MAX <- function() {",
        "  .Call(C_Counter__Step__MAX, .call = match.call())",
        "}",
        "",
    ];
    assert_eq!(text, want.join("\n"));
}

#[test]
fn s3_generic_on_an_author_page() {
    let mut m = method("add", true);
    m.picks_page = true;
    m.joins_author_topic = true;
    m.page = "stepping".to_string();
    m.order_tag = Some("@order NaN".to_string());
    let text = trait_s3_r_wrapper("Counter", "Step", &[m], &[]);
    let lines: Vec<&str> = text.lines().collect();
    assert_eq!(&lines[3..6], &["#' @name add.Counter", "#' @rdname stepping", "#' @order NaN"]);
    // Without static methods or constants there is no namespace.
    assert!(!text.contains("new.env"));
}

#[test]
fn instance_body_end() {
    let mut lines = strings(&["f <- function(x) {", "  .Call(C_f, x)"]);
    finish_instance_body(&mut lines, true, true, "x");
    assert_eq!(lines, strings(&["f <- function(x) {", "  .Call(C_f, x)", "  invisible(x)"]));
    let mut lines = strings(&["  .Call(C_f, x)"]);
    finish_instance_body(&mut lines, false, true, "x");
    assert_eq!(lines, strings(&["  invisible(.Call(C_f, x))"]));
}

#[test]
fn s7_trait_wrapper_layout() {
    let mut m = method("add", true);
    m.returns_unit = true;
    let text = trait_s7_r_wrapper(
        "Counter",
        "Step",
        ".Counter__Step",
        &[m, method("create", false)],
        &[TraitWrapperConst {
            target: ".Counter__Step$MAX".to_string(),
            doc_name: "Counter$Step$MAX".to_string(),
            c_ident: "C_Counter__Step__MAX".to_string(),
        }],
    );
    let want = [
        "# S7 trait methods for Counter implementing Step",
        "# Generated by #[miniextendr(s7)] impl Step for Counter",
        "",
        "#' @importFrom S7 new_generic method S7_dispatch",
        ".s7_class_Counter <- Counter",
        "",
        "#' @description S7 generic for trait method `Step::add`",
        "#' @name s7_trait_Step_add",
        "#' @rdname Counter",
        "#' @export",
        "if (!exists(\"s7_trait_Step_add\", mode = \"function\")) {",
        "  s7_trait_Step_add <- S7::new_generic(\"s7_trait_Step_add\", \"x\", function(x, ...) S7::S7_dispatch())",
        "}",
        "",
        "S7::method(s7_trait_Step_add, .s7_class_Counter) <- function(x, by, ...) {",
        "  .ptr <- x@.ptr",
        "  stopifnot(is.numeric(by))",
        "  .Call(C_Counter__Step__add, .ptr, by)",
        "  x",
        "}",
        "",
        "#' Fast-path shortcut",
        "#' @description Calls the method directly.",
        "#' @param self A `Counter` object.",
        "#' @param by Step",
        "#' @param ... Additional arguments; ignored by the fast-path shortcut.",
        "#' @rdname Counter",
        "#' @export",
        "Counter_add <- function(self, by, ...) {",
        "  stopifnot(is.numeric(by))",
        "  .Call(C_Counter__Step__add, self@.ptr, by)",
        "  self",
        "}",
        "",
        ".Counter__Step <- new.env(parent = emptyenv())",
        "",
        "#' Static trait method Step::create()",
        "#' @rdname Counter",
        "Counter$Step$create <- function() {",
        "  stopifnot(is.numeric(by))",
        "  .Call(C_Counter__Step__add, x, by)",
        "}",
        "",
        "#' @name Counter$Step$MAX",
        "#' @rdname Counter",
        ".Counter__Step$MAX <- function() {",
        "  .Call(C_Counter__Step__MAX, .call = match.call())",
        "}",
        "",
        "attr(Counter, \"Step\") <- .Counter__Step",
        "",
    ];
    assert_eq!(text, want.join("\n"));
}

#[test]
fn s7_shortcut_options() {
    let mut m = method("add", true);
    m.no_shortcut = true;
    let text = trait_s7_r_wrapper("Counter", "Step", ".Counter__Step", &[m], &[]);
    assert!(!text.contains("Counter_add"));
    assert!(!text.contains("new.env"));
    let mut m = method("add", true);
    m.joins_author_topic = true;
    m.shortcut_formals = vec![("by".to_string(), false)];
    let text = trait_s7_r_wrapper("Counter", "Step", ".Counter__Step", &[m], &[]);
    // On an author topic: the advisory's title line only, no `self` line
    // and no fillers.
    assert!(text.contains("#' Fast-path shortcut\n#' @param by Step\n#' @rdname Counter"));
    let mut m = method("add", true);
    m.params_documented_elsewhere = true;
    m.shortcut_formals = vec![("by".to_string(), false), ("...".to_string(), false)];
    let text = trait_s7_r_wrapper("Counter", "Step", ".Counter__Step", &[m], &[]);
    assert!(!text.contains("(undocumented)"));
    assert!(text.contains("#' @param ... Additional arguments; ignored by the fast-path shortcut."));
}

fn max_const(target: &str) -> TraitWrapperConst {
    TraitWrapperConst { target: target.to_string(), doc_name: "Counter$Step$MAX".to_string(), c_ident: "C_Counter__Step__MAX".to_string() }
}

#[test]
fn s4_trait_wrapper_layout() {
    let mut create = method("create", false);
    create.namespace_target = "Counter_Step_create".to_string();
    let text = trait_s4_r_wrapper("Counter", "Step", &[method("add", true), create], &[max_const("Counter_Step_MAX")]);
    let want = [
        "# S4 trait methods for Counter implementing Step",
        "# Generated by #[miniextendr(s4)] impl Step for Counter",
        "",
        "#' @importFrom methods setGeneric setMethod",
        "",
        "#' @description S4 generic for trait method `Step::add`",
        "#' @name s4_trait_Step_add",
        "#' @rdname Counter",
        "#' @param x A `Counter` object",
        "#' @param ... Additional arguments passed to methods",
        "#' @param by Step",
        "#' @export",
        "if (!exists(\"s4_trait_Step_add\", where = topenv(environment()), inherits = FALSE)) methods::setGeneric(\"s4_trait_Step_add\", function(x, ...) standardGeneric(\"s4_trait_Step_add\"))",
        "",
        "#' @rdname Counter",
        "#' @param by Step",
        "#' @exportMethod s4_trait_Step_add",
        "methods::setMethod(\"s4_trait_Step_add\", \"Counter\", function(x, by, ...) {",
        "  .ptr <- x@ptr",
        "  stopifnot(is.numeric(by))",
        "  .Call(C_Counter__Step__add, .ptr, by)",
        "})",
        "",
        "#' Static trait method Step::create() for Counter",
        "#' @rdname Counter",
        "#' @export",
        "Counter_Step_create <- function() {",
        "  stopifnot(is.numeric(by))",
        "  .Call(C_Counter__Step__add, x, by)",
        "}",
        "",
        "#' @name Counter_Step_MAX",
        "#' @rdname Counter",
        "#' @export",
        "Counter_Step_MAX <- function() {",
        "  .Call(C_Counter__Step__MAX, .call = match.call())",
        "}",
        "",
    ];
    assert_eq!(text, want.join("\n"));
}

#[test]
fn r6_trait_wrapper_layout() {
    let mut add = method("add", true);
    add.invisible = true;
    add.ptr_body = strings(&["  .Call(C_Counter__Step__add, .ptr, by)"]);
    let text = trait_r6_r_wrapper("Counter", "Step", &[add], &[]);
    let want = [
        "# R6 trait methods for Counter implementing Step",
        "# Generated by #[miniextendr(r6)] impl Step for Counter",
        "# Note: R6 trait methods live in the Type$Trait$method namespace",
        "",
        "Counter$Step <- new.env(parent = emptyenv())",
        "",
        "#' @rdname Counter",
        "Counter$Step$add <- function(x, by) {",
        "  .ptr <- x$.__enclos_env__$private$.ptr",
        "  stopifnot(is.numeric(by))",
        "  invisible(.Call(C_Counter__Step__add, .ptr, by))",
        "}",
        "",
    ];
    assert_eq!(text, want.join("\n"));
    // No methods and no constants: no namespace.
    assert!(!trait_r6_r_wrapper("Counter", "Step", &[], &[]).contains("new.env"));
}

#[test]
fn env_trait_wrapper_layout() {
    let mut add = method("add", true);
    add.namespace_target = "Counter$Step$add".to_string();
    add.returns_unit = true;
    let text = trait_env_r_wrapper("Counter", "Step", &[add, method("create", false)], &[]).unwrap();
    let want = [
        "# Trait methods and consts for Counter implementing Step",
        "# Generated by #[miniextendr] impl Step for Counter",
        "",
        "Counter$Step <- new.env(parent = emptyenv())",
        "",
        "#' @rdname Counter",
        "Counter$Step$add <- function(x, by) {",
        "  stopifnot(is.numeric(by))",
        "  .Call(C_Counter__Step__add, x, by)",
        "  x",
        "}",
        "attr(Counter$Step$add, \".__mx_instance__\") <- TRUE",
        "",
        "#' @rdname Counter",
        "Counter$Step$create <- function() {",
        "  stopifnot(is.numeric(by))",
        "  .Call(C_Counter__Step__add, x, by)",
        "}",
        "",
    ];
    assert_eq!(text, want.join("\n"));
    let mut clash = method("add", true);
    clash.param_names = strings(&["x"]);
    assert_eq!(
        trait_env_r_wrapper("Counter", "Step", &[clash], &[]).unwrap_err(),
        "trait instance method parameter cannot be named `x` (collides with self parameter in env-class dispatch)"
    );
}

fn wrapper(class_system: ClassSystem, methods: &[TraitWrapperMethod]) -> Result<String, Vec<String>> {
    let opts = TraitWrapperOpts { class_system, class_has_no_rd: false, internal: false, noexport: false };
    generate_trait_r_wrapper("Counter", "Step", ".Counter__Step", methods, &[], opts)
}

#[test]
fn test_trait_method_describe_in_rejected_without_listable_object() {
    let with_describe_in = |mut m: TraitWrapperMethod| {
        m.describes_in = true;
        m.param_names = Vec::new();
        m
    };
    let inst = with_describe_in(method("value", true));
    let stat = with_describe_in(method("make", false));
    let mut no_shortcut = with_describe_in(method("value", true));
    no_shortcut.no_shortcut = true;
    let cases = [
        (ClassSystem::Env, &inst, "Env trait instance method `value`:"),
        (ClassSystem::Env, &stat, "Env trait static method `make`:"),
        (ClassSystem::R6, &inst, "R6 trait instance method `value`:"),
        (ClassSystem::R6, &stat, "R6 trait static method `make`:"),
        (ClassSystem::S3, &stat, "S3 trait static method `make`:"),
        (ClassSystem::Vctrs, &stat, "vctrs trait static method `make`:"),
        (ClassSystem::S7, &stat, "S7 trait static method `make`:"),
        (ClassSystem::S7, &no_shortcut, "S7 trait instance method `value` without a fast-path shortcut:"),
    ];
    for (class_system, m, kind) in cases {
        let err = wrapper(class_system, std::slice::from_ref(m))
            .expect_err(&format!("{class_system:?}: {kind} must be rejected"))
            .join("\n");
        assert!(
            err.contains(&format!("`@describeIn` is not supported on the {kind}")),
            "{class_system:?}: got {err}"
        );
        assert!(err.contains("Use `@rdname <topic>`"), "got {err}");
    }
    // Every rejected method is reported at once.
    let both = [with_describe_in(method("value", true)), with_describe_in(method("make", false))];
    assert_eq!(wrapper(ClassSystem::Env, &both).unwrap_err().len(), 2);
    assert_eq!(reject_unsupported_describe_in(&both, ClassSystem::R6).len(), 2);
    // A page picked with `@rdname` stays available everywhere.
    let mut rdname = method("make", false);
    rdname.picks_page = true;
    for class_system in
        [ClassSystem::Env, ClassSystem::R6, ClassSystem::S3, ClassSystem::S4, ClassSystem::S7, ClassSystem::Vctrs]
    {
        wrapper(class_system, std::slice::from_ref(&rdname)).unwrap();
    }
}

#[test]
fn trait_wrapper_dispatch_applies_options() {
    let opts = |class_system, internal| TraitWrapperOpts { class_system, class_has_no_rd: false, internal, noexport: false };
    let methods = [method("add", true)];
    let s3 = generate_trait_r_wrapper("Counter", "Step", ".Counter__Step", &methods, &[], opts(ClassSystem::S3, false)).unwrap();
    assert_eq!(s3, trait_s3_r_wrapper("Counter", "Step", &methods, &[]));
    let vctrs = generate_trait_r_wrapper("Counter", "Step", ".Counter__Step", &methods, &[], opts(ClassSystem::Vctrs, false)).unwrap();
    assert_eq!(vctrs, s3);
    let internal = generate_trait_r_wrapper("Counter", "Step", ".Counter__Step", &methods, &[], opts(ClassSystem::S3, true)).unwrap();
    assert!(!internal.contains("@export"));
    assert!(internal.contains("#' @keywords internal"));
    let mut m = method("add", true);
    m.describes_in = true;
    let err = generate_trait_r_wrapper("Counter", "Step", ".Counter__Step", &[m], &[], opts(ClassSystem::Env, false)).unwrap_err();
    assert_eq!(err.len(), 1);
}

/// An undocumented method `fn value(&self) -> i32` (or `fn value() -> i32`)
/// of `impl Bar for Foo`, with the pieces its documentation and signature
/// give: no tags, the type page, no parameters.
fn make_test_method(name: &str, has_self: bool) -> TraitWrapperMethod {
    TraitWrapperMethod {
        r_name: name.to_string(),
        has_self,
        picks_page: false,
        page: "Foo".to_string(),
        joins_author_topic: false,
        order_tag: None,
        generic_guard: format!("if (!exists(\"{name}\", mode = \"function\")) {name} <- function(x, ...) UseMethod(\"{name}\")"),
        page_lines: strings(&["#' @rdname Foo"]),
        param_tags: Vec::new(),
        def_name: format!("{name}.Foo"),
        params: String::new(),
        prelude: Vec::new(),
        body: strings(&[&format!("  .Call(C_Foo__Bar__{name}, .call = match.call(), x)")]),
        returns_unit: false,
        invisible: false,
        namespace_target: format!("Foo$Bar${name}"),
        rust_name: name.to_string(),
        ptr_body: strings(&[&format!("  .Call(C_Foo__Bar__{name}, .call = match.call(), .ptr)")]),
        describes_in: false,
        param_names: Vec::new(),
        no_shortcut: false,
        advisory: strings(&["#' Fast path"]),
        shortcut_formals: vec![("self".to_string(), false), ("...".to_string(), false)],
        params_documented_elsewhere: false,
        shortcut_page_lines: strings(&["#' @rdname Foo"]),
        shortcut_source: Vec::new(),
        shortcut_body: strings(&[&format!("  .Call(C_Foo__Bar__{name}, .call = match.call(), self@.ptr)")]),
    }
}

fn foo_bar(class_system: ClassSystem, no_rd: bool, internal: bool, noexport: bool) -> String {
    let opts = TraitWrapperOpts { class_system, class_has_no_rd: no_rd, internal, noexport };
    generate_trait_r_wrapper("Foo", "Bar", ".Foo__Bar", &[make_test_method("value", true)], &[], opts).unwrap()
}

#[test]
fn test_internal_suppresses_export_s3() {
    let result = foo_bar(ClassSystem::S3, false, true, false);
    assert!(result.contains("@keywords internal"), "got:\n{result}");
    assert!(!result.contains("@export"), "got:\n{result}");
}

#[test]
fn test_noexport_suppresses_export_s3() {
    let result = foo_bar(ClassSystem::S3, false, false, true);
    assert!(!result.contains("@keywords internal"), "got:\n{result}");
    assert!(!result.contains("@export"), "got:\n{result}");
}

#[test]
fn test_internal_suppresses_export_s4() {
    let result = foo_bar(ClassSystem::S4, false, true, false);
    assert!(result.contains("@keywords internal"), "got:\n{result}");
    assert!(!result.contains("@export"), "got:\n{result}");
}

#[test]
fn test_noexport_suppresses_export_s4() {
    let result = foo_bar(ClassSystem::S4, false, false, true);
    assert!(!result.contains("@keywords internal"), "got:\n{result}");
    assert!(!result.contains("@export"), "got:\n{result}");
}

#[test]
fn test_noexport_suppresses_all_roxygen_s4() {
    let result = foo_bar(ClassSystem::S4, false, false, true);
    assert!(!result.contains("#'"), "got:\n{result}");
}

#[test]
fn test_internal_still_contributes_rdname_s4() {
    let result = foo_bar(ClassSystem::S4, false, true, false);
    assert!(result.contains("@rdname"), "got:\n{result}");
}

#[test]
fn test_noexport_emits_no_rd_marker_s3() {
    let result = foo_bar(ClassSystem::S3, false, false, true);
    assert!(result.contains("#' @noRd"), "got:\n{result}");
    assert!(!result.contains("@export"), "got:\n{result}");
}

#[test]
fn test_internal_does_not_emit_no_rd_marker_s3() {
    let result = foo_bar(ClassSystem::S3, false, true, false);
    assert!(!result.contains("@noRd"), "got:\n{result}");
    assert!(result.contains("@rdname"), "got:\n{result}");
}

#[test]
fn test_no_flags_preserves_export_s3() {
    let result = foo_bar(ClassSystem::S3, false, false, false);
    assert!(result.contains("@export"), "got:\n{result}");
}

#[test]
fn test_nord_takes_precedence_over_internal_env() {
    let result = foo_bar(ClassSystem::Env, true, true, false);
    assert!(!result.contains("#'"), "got:\n{result}");
}

#[test]
fn test_env_no_export_tags_even_without_flags() {
    let result = foo_bar(ClassSystem::Env, false, false, false);
    assert!(!result.contains("@export"), "got:\n{result}");
}

#[test]
fn test_internal_adds_keywords_internal_env() {
    let result = foo_bar(ClassSystem::Env, false, true, false);
    assert!(result.contains("@keywords internal"), "got:\n{result}");
}

#[test]
fn test_s7_trait_impl_no_shortcut_suppresses_shortcut() {
    let mut m = make_test_method("value", true);
    m.no_shortcut = true;
    let opts = TraitWrapperOpts { class_system: ClassSystem::S7, class_has_no_rd: false, internal: false, noexport: false };
    let result = generate_trait_r_wrapper("Foo", "Bar", ".Foo__Bar", &[m], &[], opts).unwrap();
    assert!(!result.contains("Foo_value <- function"), "got:\n{result}");
    assert!(result.contains("s7_trait_Bar_value"), "got:\n{result}");
}
