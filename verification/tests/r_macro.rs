use miniextendr_macros::r_macro::grammar::{validate, GrammarError, Keyword};
use miniextendr_macros::tokens::{Delimiter, Spacing, TokenTree};
use miniextendr_macros::r_macro::{parse_r_macro_input, InputError};

fn model(ts: proc_macro2::TokenStream) -> Vec<TokenTree> {
    ts.into_iter()
        .map(|tt| match tt {
            proc_macro2::TokenTree::Ident(i) => TokenTree::Ident(i.to_string()),
            proc_macro2::TokenTree::Punct(p) => TokenTree::Punct(
                p.as_char(),
                match p.spacing() {
                    proc_macro2::Spacing::Joint => Spacing::Joint,
                    proc_macro2::Spacing::Alone => Spacing::Alone,
                },
            ),
            proc_macro2::TokenTree::Literal(l) => TokenTree::Literal(l.to_string()),
            proc_macro2::TokenTree::Group(g) => TokenTree::Group(
                match g.delimiter() {
                    proc_macro2::Delimiter::Parenthesis => Delimiter::Parenthesis,
                    proc_macro2::Delimiter::Bracket => Delimiter::Bracket,
                    proc_macro2::Delimiter::Brace => Delimiter::Brace,
                    proc_macro2::Delimiter::None => Delimiter::Invisible,
                },
                model(g.stream()),
            ),
        })
        .collect()
}

fn stream(tokens: &[TokenTree]) -> proc_macro2::TokenStream {
    tokens
        .iter()
        .map(|t| -> proc_macro2::TokenStream {
            match t {
                TokenTree::Ident(s) => {
                    proc_macro2::TokenTree::Ident(proc_macro2::Ident::new(s, proc_macro2::Span::call_site())).into()
                }
                TokenTree::Punct(c, sp) => proc_macro2::TokenTree::Punct(proc_macro2::Punct::new(
                    *c,
                    match sp {
                        Spacing::Joint => proc_macro2::Spacing::Joint,
                        Spacing::Alone => proc_macro2::Spacing::Alone,
                    },
                ))
                .into(),
                TokenTree::Literal(s) => s.parse().unwrap(),
                TokenTree::Group(d, inner) => proc_macro2::TokenTree::Group(proc_macro2::Group::new(
                    match d {
                        Delimiter::Parenthesis => proc_macro2::Delimiter::Parenthesis,
                        Delimiter::Bracket => proc_macro2::Delimiter::Bracket,
                        Delimiter::Brace => proc_macro2::Delimiter::Brace,
                        Delimiter::Invisible => proc_macro2::Delimiter::None,
                    },
                    stream(inner),
                ))
                .into(),
            }
        })
        .collect()
}

fn tokens(src: &str) -> Vec<TokenTree> {
    model(src.parse().expect("not a valid Rust token stream"))
}

fn check(src: &str) -> Result<(), GrammarError> {
    validate(&tokens(src))
}

fn ok(src: &str) {
    let r = check(src);
    assert!(r.is_ok(), "expected Ok for {src:?}, got: {r:?}");
}

fn err(src: &str) {
    assert!(check(src).is_err(), "expected Err for {src:?}, got Ok");
}

fn parse(src: &str) -> (Option<Vec<TokenTree>>, Vec<TokenTree>) {
    parse_r_macro_input(tokens(src)).unwrap()
}

// Splitting the input

#[test]
fn env_head_is_split_off() {
    let (env, tail) = parse("env: e; x + 1");
    assert_eq!(stream(&env.unwrap()).to_string(), "e");
    assert_eq!(stream(&tail).to_string(), "x + 1");
}

#[test]
fn double_colon_is_r_code_not_env_head() {
    let (env, tail) = parse("env::foo()");
    assert!(env.is_none());
    assert_eq!(stream(&tail).to_string(), "env :: foo ()");
}

#[test]
fn env_head_without_semicolon_errors() {
    let err = parse_r_macro_input(tokens("env: e")).unwrap_err();
    assert!(err.message().contains("missing `;`"));
}

#[test]
fn input_errors_are_reported() {
    assert_eq!(parse_r_macro_input(Vec::new()).unwrap_err(), InputError::NoTokens);
    assert_eq!(parse_r_macro_input(tokens("env: ; x")).unwrap_err(), InputError::EmptyEnv);
    assert_eq!(parse_r_macro_input(tokens("env: e ;")).unwrap_err(), InputError::EmptyCode);
    assert_eq!(parse_r_macro_input(tokens("env: e")).unwrap_err(), InputError::MissingSemicolon);
    assert_eq!(InputError::NoTokens.message(), "r!() requires at least one R token");
    assert_eq!(
        InputError::EmptyCode.message(),
        "r!(env: ...; <code>) has no R code after the `;` separator"
    );
}

#[test]
fn env_head_stops_at_first_semicolon() {
    let (env, tail) = parse("env: f(a; b); x; y");
    // The `;` inside the group is not at the top level.
    assert_eq!(stream(&env.unwrap()).to_string(), "f (a ; b)");
    assert_eq!(stream(&tail).to_string(), "x ; y");
}

#[test]
fn input_without_head_is_all_code() {
    let (env, tail) = parse("env + 1");
    assert!(env.is_none());
    assert_eq!(stream(&tail).to_string(), "env + 1");
}

// Trailing binary operators

#[test]
fn trailing_multiply() {
    err("x *");
}

#[test]
fn trailing_divide() {
    err("x /");
}

#[test]
fn trailing_caret() {
    err("x ^");
}

// Accepted forms

#[test]
fn arithmetic_expression() {
    ok("1L + 2L");
}

#[test]
fn assignment_arrow() {
    ok(".x <- 41L + 1L");
}

#[test]
fn forward_arrow_assignment() {
    ok("41L + 1L -> .y");
}

#[test]
fn semicolon_sequence() {
    ok("a <- 7L ; a * 6L");
}

#[test]
fn multi_statement_with_env_form() {
    ok("local_val <- 7L ; local_val * 6L");
}

#[test]
fn trailing_semicolon_ok() {
    ok("x <- 1L ;");
}

#[test]
fn nchar_call() {
    ok(r#"nchar("hello")"#);
}

#[test]
fn index_with_empty_first_arg() {
    ok("x[,1]");
}

#[test]
fn empty_function_call() {
    ok("f()");
}

#[test]
fn percent_in_percent() {
    ok("x % in % y");
}

#[test]
fn tilde_formula() {
    ok("y ~ x");
}

#[test]
fn logical_operators() {
    ok("x && y");
    ok("x || y");
}

// Control flow

#[test]
fn if_else_valid() {
    ok("if (x > 0) x else - x");
}

#[test]
fn while_valid() {
    ok("while (i < 10) i <- i + 1L");
}

#[test]
fn for_valid() {
    ok("for (i in 1:10) print(i)");
}

#[test]
fn if_empty_condition() {
    err("if () x");
}

#[test]
fn if_no_body() {
    err("if (x)");
}

#[test]
fn for_missing_in() {
    err("for (x) {}");
}

#[test]
fn for_empty() {
    err("for () {}");
}

// Consecutive operators

#[test]
fn double_star() {
    err("x * * y");
}

#[test]
fn double_slash() {
    err("x / / y");
}

// Empty call arguments

#[test]
fn leading_empty_call_arg() {
    err("f(, x)");
}

#[test]
fn middle_empty_call_arg() {
    err("f(x,,y)");
}

#[test]
fn trailing_empty_call_arg_ok() {
    ok("f(x,)");
}

#[test]
fn empty_paren_after_binary_at() {
    err("x @ ()");
}

// Which error, and its message

#[test]
fn each_error_kind_is_reported() {
    assert_eq!(check("x *"), Err(GrammarError::TrailingBinaryOperator));
    assert_eq!(check("x * ;"), Err(GrammarError::TrailingBinaryOperator));
    assert_eq!(check("x * / y"), Err(GrammarError::ConsecutiveBinaryOperators('*', '/')));
    assert_eq!(check("f(x,,y)"), Err(GrammarError::EmptyCallArgument));
    assert_eq!(check("x @ ()"), Err(GrammarError::EmptyParenthesesAfterOperator));
    assert_eq!(check("while () x"), Err(GrammarError::EmptyCondition(Keyword::While)));
    assert_eq!(check("if (x)"), Err(GrammarError::MissingBody(Keyword::If)));
    assert_eq!(check("for () {}"), Err(GrammarError::EmptyForHeader));
    assert_eq!(check("for (x) {}"), Err(GrammarError::ForMissingIn));
    assert_eq!(check("for (i in x)"), Err(GrammarError::MissingForBody));
}

#[test]
fn errors_inside_groups_are_found() {
    assert_eq!(check("f(g(x *))"), Err(GrammarError::TrailingBinaryOperator));
    assert_eq!(check("{ a ; b * * c }"), Err(GrammarError::ConsecutiveBinaryOperators('*', '*')));
    assert_eq!(check("x[f(, 1), 2]"), Err(GrammarError::EmptyCallArgument));
    // The first error from the left is the one reported.
    assert_eq!(check("f(x *) ; g(, y)"), Err(GrammarError::TrailingBinaryOperator));
}

#[test]
fn joined_operators_are_not_doubled() {
    // `**` is written joined, and `%in%` alternates with an identifier.
    ok("x %in% y");
    assert_eq!(check("x ** y"), Ok(()));
}

#[test]
fn empty_slots_in_index_groups_are_accepted() {
    ok("x[1,]");
    ok("x[,]");
    ok("m[[,1]]");
}

#[test]
fn error_messages() {
    assert_eq!(
        GrammarError::ConsecutiveBinaryOperators('*', '/').message(),
        "R syntax error: consecutive binary operators `*` and `/` — expected an operand between them"
    );
    assert_eq!(
        GrammarError::EmptyCondition(Keyword::If).message(),
        "R syntax error: `if` condition is empty — `if ()` is not valid R"
    );
    assert_eq!(
        GrammarError::MissingBody(Keyword::While).message(),
        "R syntax error: `while (...)` has no body — expected a consequent expression after the condition"
    );
    assert_eq!(
        GrammarError::TrailingBinaryOperator.message(),
        "R syntax error: expression ends with a binary operator — expected a right-hand operand after the operator"
    );
}
