use miniextendr_macros::naming::{apply_rename_all, r_wrapper_const_name_for, to_kebab_case, to_snake_case};

#[test]
fn snake_case() {
    assert_eq!(to_snake_case("HelloWorld"), "hello_world");
    assert_eq!(to_snake_case("InProgress"), "in_progress");
    assert_eq!(to_snake_case("ABC"), "a_b_c");
    assert_eq!(to_snake_case("Red"), "red");
}

#[test]
fn kebab_case() {
    assert_eq!(to_kebab_case("HelloWorld"), "hello-world");
    assert_eq!(to_kebab_case("InProgress"), "in-progress");
}

#[test]
fn rename_all() {
    assert_eq!(apply_rename_all("HelloWorld", Some("snake_case")), "hello_world");
    assert_eq!(apply_rename_all("HelloWorld", Some("kebab-case")), "hello-world");
    assert_eq!(apply_rename_all("HelloWorld", Some("lower")), "helloworld");
    assert_eq!(apply_rename_all("HelloWorld", Some("upper")), "HELLOWORLD");
    assert_eq!(apply_rename_all("HelloWorld", None), "HelloWorld");
}

#[test]
fn rename_all_unknown_rule_keeps_the_name() {
    assert_eq!(apply_rename_all("HelloWorld", Some("camelCase")), "HelloWorld");
    assert_eq!(apply_rename_all("HelloWorld", Some("SCREAMING")), "HelloWorld");
}

#[test]
fn kebab_is_snake_with_hyphens() {
    for name in ["HelloWorld", "ABC", "already_snake", "X", ""] {
        assert_eq!(to_kebab_case(name), to_snake_case(name).replace('_', "-"));
    }
    assert_eq!(to_kebab_case("already_snake"), "already-snake");
}

#[test]
fn snake_case_of_edge_inputs() {
    assert_eq!(to_snake_case(""), "");
    assert_eq!(to_snake_case("lower"), "lower");
    assert_eq!(to_snake_case("ÄpfelBirnen"), "äpfel_birnen");
}

#[test]
fn r_wrapper_const_name() {
    assert_eq!(r_wrapper_const_name_for("my_fn"), "R_WRAPPER_MY_FN");
    assert_eq!(r_wrapper_const_name_for("Counter"), "R_WRAPPER_COUNTER");
}
