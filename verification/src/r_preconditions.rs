//! R-side argument checks that run in the R wrapper before the `.Call()`.
//!
//! Each check tests one requirement of one parameter and is written as a
//! guard that raises the shared argument error on failure:
//! `if (!isTRUE(is.integer(a))) .miniextendr_arg_error("a", "must be integer")`.
use vstd::prelude::*;
use crate::r_wrapper_builder::{normalize_r_arg_string, r_arg_name};
use crate::text::{contains_string, concat2, concat3, concat4, concat5, join, join_strings, owned, push_char, push_string, starts_with, str_eq, str_starts_with, views};
use crate::types::{
    first_type_arg, is_missing, is_missing_type, last_ident, last_ident_is, last_segment, last_segment_of,
    leading_type_arg, leading_type_argument, missing_inner, missing_inner_type, option_inner,
    option_inner_type, GenericArg, Param, SegmentArgs, TypeModel,
};

verus! {

// ---------------------------------------------------------------------------
// Assertions
// ---------------------------------------------------------------------------

/// One check on one parameter: the requirement it enforces and the R
/// condition that must be `TRUE`.
pub struct RAssertion {
    /// R name of the checked parameter.
    pub param: String,
    /// What the parameter must satisfy, without its name (`must be numeric`).
    pub requirement: String,
    /// R expression that must evaluate to `TRUE` for the check to pass.
    pub condition: String,
    /// The author's own failure message, used verbatim when given.
    pub message: Option<String>,
}

/// The view of an [`RAssertion`].
pub struct AssertionView {
    pub param: Seq<char>,
    pub requirement: Seq<char>,
    pub condition: Seq<char>,
    pub message: Option<Seq<char>>,
}

/// The view of an optional string.
pub open spec fn opt_view(o: Option<String>) -> Option<Seq<char>> {
    match o {
        Some(s) => Some(s@),
        None => None,
    }
}

impl View for RAssertion {
    type V = AssertionView;

    open spec fn view(&self) -> AssertionView {
        AssertionView {
            param: self.param@,
            requirement: self.requirement@,
            condition: self.condition@,
            message: opt_view(self.message),
        }
    }
}

/// The views of a list of assertions.
pub open spec fn aviews(v: Seq<RAssertion>) -> Seq<AssertionView> {
    v.map_values(|a: RAssertion| a@)
}

/// An assertion with no message of the author.
pub open spec fn mk(param: Seq<char>, requirement: Seq<char>, condition: Seq<char>) -> AssertionView {
    AssertionView { param, requirement, condition, message: None }
}

fn push_assertion(v: &mut Vec<RAssertion>, a: RAssertion)
    ensures
        aviews(final(v)@) == aviews(old(v)@).push(a@),
{
    let ghost before = v@;
    v.push(a);
    assert(aviews(v@) =~= aviews(before).push(a@));
}

fn clone_assertion(a: &RAssertion) -> (r: RAssertion)
    ensures
        r@ == a@,
{
    let message = match &a.message {
        Some(m) => Some(m.clone()),
        None => None,
    };
    RAssertion { param: a.param.clone(), requirement: a.requirement.clone(), condition: a.condition.clone(), message }
}

fn new_assertion(param: &str, requirement: &str, condition: String) -> (r: RAssertion)
    ensures
        r@ == mk(param@, requirement@, condition@),
{
    RAssertion { param: owned(param), requirement: owned(requirement), condition, message: None }
}

/// The assertion of a nullable value: the condition passes `NULL`, the
/// requirement mentions it.
pub open spec fn nullable_view(a: AssertionView) -> AssertionView {
    AssertionView {
        param: a.param,
        requirement: if starts_with(a.requirement, "must be "@) {
            "must be NULL or "@ + a.requirement.skip(8)
        } else if starts_with(a.requirement, "must have "@) {
            "must be NULL or have "@ + a.requirement.skip(10)
        } else {
            a.requirement + " (or NULL)"@
        },
        condition: "is.null("@ + a.param + ") || "@ + a.condition,
        message: a.message,
    }
}

/// The condition message a failure raises: the author's message, else
/// `'<param>' <requirement>`.
pub open spec fn failure_message(a: AssertionView) -> Seq<char> {
    match a.message {
        Some(m) => m,
        None => "'"@ + a.param + "' "@ + a.requirement,
    }
}

/// The guard line of an assertion; `call` is the call a failure is
/// attributed to (the helper's default when `None`).
pub open spec fn guard_text(a: AssertionView, call: Option<Seq<char>>) -> Seq<char> {
    match a.message {
        None => "if (!isTRUE("@ + a.condition + ")) .miniextendr_arg_error(\""@ + a.param + "\", \""@
            + a.requirement + "\""@ + (match call {
            Some(c) => ", "@ + c,
            None => Seq::empty(),
        }) + ")"@,
        Some(m) => "if (!isTRUE("@ + a.condition + ")) .miniextendr_arg_error(\""@ + a.param
            + "\", message = \""@ + r_escape(m) + "\""@ + (match call {
            Some(c) => ", call = "@ + c,
            None => Seq::empty(),
        }) + ")"@,
    }
}

proof fn lemma_literal_lengths()
    ensures
        "must be "@.len() == 8,
        "must have "@.len() == 10,
{
    reveal_strlit("must be ");
    reveal_strlit("must have ");
}

impl RAssertion {
    /// A check on `param` with its requirement and R condition.
    pub fn new(param: &str, requirement: &str, condition: &str) -> (r: Self)
        ensures
            r@ == mk(param@, requirement@, condition@),
    {
        RAssertion { param: owned(param), requirement: owned(requirement), condition: owned(condition), message: None }
    }

    /// Use the author's message verbatim for a failure.
    pub fn with_message(self, message: Option<&String>) -> (r: Self)
        ensures
            r@ == (AssertionView {
                message: match message {
                    Some(m) => Some(m@),
                    None => None,
                },
                ..self@
            }),
    {
        let m = match message {
            Some(m) => Some(m.clone()),
            None => None,
        };
        RAssertion { message: m, ..self }
    }

    /// The condition message of a failure.
    pub fn message(&self) -> (r: String)
        ensures
            r@ == failure_message(self@),
    {
        match &self.message {
            Some(m) => m.clone(),
            None => {
                let mut s = owned("'");
                s.append(self.param.as_str());
                s.append("' ");
                s.append(self.requirement.as_str());
                s
            },
        }
    }

    /// The guard line: `if (!isTRUE(condition)) .miniextendr_arg_error(...)`.
    pub fn to_guard(&self, call: Option<&str>) -> (r: String)
        ensures
            r@ == guard_text(self@, match call {
                Some(c) => Some(c@),
                None => None,
            }),
    {
        let mut s = owned("if (!isTRUE(");
        s.append(self.condition.as_str());
        s.append(")) .miniextendr_arg_error(\"");
        s.append(self.param.as_str());
        match &self.message {
            None => {
                s.append("\", \"");
                s.append(self.requirement.as_str());
                s.append("\"");
                match call {
                    Some(c) => {
                        s.append(", ");
                        s.append(c);
                    },
                    None => {},
                }
            },
            Some(m) => {
                s.append("\", message = \"");
                let e = r_string_escape(m.as_str());
                s.append(e.as_str());
                s.append("\"");
                match call {
                    Some(c) => {
                        s.append(", call = ");
                        s.append(c);
                    },
                    None => {},
                }
            },
        }
        s.append(")");
        s
    }

    /// The same check for a nullable value.
    pub fn nullable(self) -> (r: Self)
        ensures
            r@ == nullable_view(self@),
    {
        proof {
            lemma_literal_lengths();
        }
        let n = self.requirement.as_str().unicode_len();
        let requirement = if str_starts_with(self.requirement.as_str(), "must be ") {
            let rest = self.requirement.as_str().substring_char(8, n);
            let mut r = owned("must be NULL or ");
            r.append(rest);
            r
        } else if str_starts_with(self.requirement.as_str(), "must have ") {
            let rest = self.requirement.as_str().substring_char(10, n);
            let mut r = owned("must be NULL or have ");
            r.append(rest);
            r
        } else {
            let mut r = self.requirement.clone();
            r.append(" (or NULL)");
            r
        };
        let mut condition = owned("is.null(");
        condition.append(self.param.as_str());
        condition.append(") || ");
        condition.append(self.condition.as_str());
        RAssertion { param: self.param, requirement, condition, message: self.message }
    }
}

// ---------------------------------------------------------------------------
// Escaping for R string literals
// ---------------------------------------------------------------------------

/// The lowercase hexadecimal digit of `d` (below 16).
pub open spec fn hex_digit(d: int) -> char {
    if d < 10 {
        (d + 48) as char
    } else {
        (d + 87) as char
    }
}

/// `n` in lowercase hexadecimal, without leading zeros.
pub open spec fn hex(n: nat) -> Seq<char>
    decreases n,
{
    if n < 16 {
        seq![hex_digit(n as int)]
    } else {
        hex(n / 16).push(hex_digit((n % 16) as int))
    }
}

/// How one character is written inside an R double-quoted string literal:
/// `\` and `"` escaped, newline, carriage return and tab as `\n`, `\r`, `\t`,
/// other printable ASCII as is, anything else as `\u{..}` (up to `FFFF`) or
/// `\U{..}`.
pub open spec fn r_escape_char(c: char) -> Seq<char> {
    if c == '\\' {
        seq!['\\', '\\']
    } else if c == '"' {
        seq!['\\', '"']
    } else if c == '\n' {
        seq!['\\', 'n']
    } else if c == '\r' {
        seq!['\\', 'r']
    } else if c == '\t' {
        seq!['\\', 't']
    } else if ' ' <= c && c <= '~' {
        seq![c]
    } else if (c as int) <= 0xFFFF {
        seq!['\\', 'u', '{'] + hex(c as nat) + seq!['}']
    } else {
        seq!['\\', 'U', '{'] + hex(c as nat) + seq!['}']
    }
}

/// `s` escaped for the inside of an R double-quoted string literal.
pub open spec fn r_escape(s: Seq<char>) -> Seq<char>
    decreases s.len(),
{
    if s.len() == 0 {
        Seq::empty()
    } else {
        r_escape(s.drop_last()) + r_escape_char(s.last())
    }
}

fn push_hex(out: &mut String, n: u32)
    ensures
        final(out)@ == old(out)@ + hex(n as nat),
    decreases n,
{
    if n >= 16 {
        push_hex(out, n / 16);
    }
    let d = (n % 16) as u8;
    let c: char = if d < 10 {
        (d + 48) as char
    } else {
        (d + 87) as char
    };
    assert(c == hex_digit(d as int));
    push_char(out, c);
}

fn push_escaped_char(out: &mut String, c: char)
    ensures
        final(out)@ == old(out)@ + r_escape_char(c),
{
    let ghost before = out@;
    if c == '\\' {
        push_char(out, '\\');
        push_char(out, '\\');
    } else if c == '"' {
        push_char(out, '\\');
        push_char(out, '"');
    } else if c == '\n' {
        push_char(out, '\\');
        push_char(out, 'n');
    } else if c == '\r' {
        push_char(out, '\\');
        push_char(out, 'r');
    } else if c == '\t' {
        push_char(out, '\\');
        push_char(out, 't');
    } else if ' ' <= c && c <= '~' {
        push_char(out, c);
    } else {
        let code = c as u32;
        push_char(out, '\\');
        if code <= 0xFFFF {
            push_char(out, 'u');
        } else {
            push_char(out, 'U');
        }
        push_char(out, '{');
        push_hex(out, code);
        push_char(out, '}');
    }
    assert(out@ =~= before + r_escape_char(c));
}

/// Escape `s` for the inside of an R double-quoted string literal (the
/// requirement text, class names and the author's messages). R package code
/// must be ASCII, so every non-ASCII character becomes a `\u{..}` / `\U{..}`
/// escape, which R reads back to the same text.
pub fn r_string_escape(s: &str) -> (r: String)
    ensures
        r@ == r_escape(s@),
{
    let n = s.unicode_len();
    let mut out = String::new();
    let mut i: usize = 0;
    while i < n
        invariant
            n == s@.len(),
            i <= n,
            out@ == r_escape(s@.take(i as int)),
        decreases n - i,
    {
        let c = s.get_char(i);
        proof {
            assert(s@.take(i + 1).drop_last() =~= s@.take(i as int));
            assert(s@.take(i + 1).last() == c);
        }
        push_escaped_char(&mut out, c);
        i = i + 1;
    }
    assert(s@.take(n as int) =~= s@);
    out
}

// ---------------------------------------------------------------------------
// Type checks
// ---------------------------------------------------------------------------

/// An R storage type named by a check (`is.<type>(x)`).
#[derive(Clone, Copy, Debug, PartialEq, Eq)]
pub enum RType {
    Integer,
    Double,
    Logical,
    Character,
    Raw,
    Complex,
    Atomic,
}

/// The R name of a storage type.
pub open spec fn rtype_name(t: RType) -> Seq<char> {
    match t {
        RType::Integer => "integer"@,
        RType::Double => "double"@,
        RType::Logical => "logical"@,
        RType::Character => "character"@,
        RType::Raw => "raw"@,
        RType::Complex => "complex"@,
        RType::Atomic => "atomic"@,
    }
}

/// The R name of a storage type.
pub fn rtype_str(t: RType) -> (r: &'static str)
    ensures
        r@ == rtype_name(t),
{
    match t {
        RType::Integer => "integer",
        RType::Double => "double",
        RType::Logical => "logical",
        RType::Character => "character",
        RType::Raw => "raw",
        RType::Complex => "complex",
        RType::Atomic => "atomic",
    }
}

/// The R-side check of a parameter type.
pub enum RTypeCheck {
    /// Numeric scalar: numeric/logical/raw, length 1.
    ScalarNumeric,
    /// Coerced `bool`: logical or integer, length 1.
    ScalarLogicalOrInteger,
    /// Coerced `Vec<bool>`: logical or integer.
    VectorLogicalOrInteger,
    /// Coerced native `i32`: integer or whole-number numeric, length 1.
    ScalarIntegerWide,
    /// Unsigned scalar: numeric/logical/raw, length 1, non-negative.
    ScalarNonNeg,
    /// `is.<type>(x)` and length 1.
    Scalar(RType),
    /// Numeric/logical/raw vector.
    VectorNumeric,
    /// `Vec<i32>` / `&[i32]`: an integer vector.
    VectorIntegerStrict,
    /// Other integer vectors: integer or whole-number numeric.
    VectorIntegerWide,
    /// `is.<type>(x)`.
    Vector(RType),
    /// `AsNumeric`: numeric/logical/character/factor, length 1.
    ScalarNumericOrText,
    /// `AsNumericVec`: numeric/logical/character/factor.
    VectorNumericOrText,
    /// `NULL` or the inner check.
    Nullable(Box<RTypeCheck>),
    /// `is.list(x)`.
    List,
}

/// `is.numeric(p) || is.logical(p) || is.raw(p)`.
pub open spec fn numeric_pred(p: Seq<char>) -> Seq<char> {
    "is.numeric("@ + p + ") || is.logical("@ + p + ") || is.raw("@ + p + ")"@
}

/// The whole-number predicate of the wide integer gates.
pub open spec fn integer_wide_pred(p: Seq<char>) -> Seq<char> {
    "is.integer("@ + p + ") || is.logical("@ + p + ") || is.raw("@ + p + ") || (is.numeric("@ + p
        + ") && all(is.na("@ + p + ") | "@ + p + " == trunc("@ + p + ")))"@
}

/// The predicate of the `AsNumeric` markers.
pub open spec fn numeric_or_text_pred(p: Seq<char>) -> Seq<char> {
    "is.numeric("@ + p + ") || is.logical("@ + p + ") || is.character("@ + p + ") || is.factor("@ + p
        + ")"@
}

/// `is.logical(p) || is.integer(p)`.
pub open spec fn logical_or_integer_pred(p: Seq<char>) -> Seq<char> {
    "is.logical("@ + p + ") || is.integer("@ + p + ")"@
}

/// `is.<type>(p)`.
pub open spec fn is_type_pred(t: RType, p: Seq<char>) -> Seq<char> {
    "is."@ + rtype_name(t) + "("@ + p + ")"@
}

/// The length-1 check.
pub open spec fn length_one(p: Seq<char>) -> AssertionView {
    mk(p, "must have length 1"@, "length("@ + p + ") == 1L"@)
}

/// The assertions of a check on parameter `p`.
pub open spec fn check_assertions(check: RTypeCheck, p: Seq<char>) -> Seq<AssertionView>
    decreases check,
{
    match check {
        RTypeCheck::ScalarNumeric => seq![mk(p, "must be numeric, logical, or raw"@, numeric_pred(p)), length_one(p)],
        RTypeCheck::ScalarLogicalOrInteger => seq![mk(p, "must be logical or integer"@, logical_or_integer_pred(p)), length_one(p)],
        RTypeCheck::VectorLogicalOrInteger => seq![mk(p, "must be logical or integer"@, logical_or_integer_pred(p))],
        RTypeCheck::ScalarIntegerWide => seq![mk(p, "must be integer or whole-number numeric"@, integer_wide_pred(p)), length_one(p)],
        RTypeCheck::ScalarNonNeg => seq![
            mk(p, "must be numeric, logical, or raw"@, numeric_pred(p)),
            length_one(p),
            mk(p, "must be non-negative"@, "is.raw("@ + p + ") || "@ + p + " >= 0"@),
        ],
        RTypeCheck::Scalar(t) => seq![mk(p, "must be "@ + rtype_name(t), is_type_pred(t, p)), length_one(p)],
        RTypeCheck::VectorNumeric => seq![mk(p, "must be numeric, logical, or raw"@, numeric_pred(p))],
        RTypeCheck::VectorIntegerStrict => seq![mk(p, "must be an integer vector"@, "is.integer("@ + p + ")"@)],
        RTypeCheck::VectorIntegerWide => seq![mk(p, "must be integer or whole-number numeric"@, integer_wide_pred(p))],
        RTypeCheck::Vector(t) => seq![mk(p, "must be "@ + rtype_name(t), is_type_pred(t, p))],
        RTypeCheck::ScalarNumericOrText => seq![mk(p, "must be numeric, logical, character, or factor"@, numeric_or_text_pred(p)), length_one(p)],
        RTypeCheck::VectorNumericOrText => seq![mk(p, "must be numeric, logical, character, or factor"@, numeric_or_text_pred(p))],
        RTypeCheck::Nullable(inner) => check_assertions(*inner, p).map_values(|a: AssertionView| nullable_view(a)),
        RTypeCheck::List => seq![mk(p, "must be a list"@, "is.list("@ + p + ")"@)],
    }
}

/// The R-facing expectation a conversion failure names for a check.
pub open spec fn expectation_of(check: RTypeCheck) -> Seq<char>
    decreases check,
{
    match check {
        RTypeCheck::ScalarNumeric => "a single number"@,
        RTypeCheck::ScalarNumericOrText => "a single number"@,
        RTypeCheck::ScalarLogicalOrInteger => "a single logical or integer"@,
        RTypeCheck::VectorLogicalOrInteger => "logical or integer"@,
        RTypeCheck::ScalarIntegerWide => "a single whole number"@,
        RTypeCheck::ScalarNonNeg => "a single non-negative number"@,
        RTypeCheck::Scalar(t) => match t {
            RType::Logical => "TRUE or FALSE"@,
            RType::Character => "a single string"@,
            RType::Integer => "a single integer"@,
            RType::Double => "a single double"@,
            _ => "a single "@ + rtype_name(t) + " value"@,
        },
        RTypeCheck::VectorNumeric => "numeric"@,
        RTypeCheck::VectorNumericOrText => "numeric"@,
        RTypeCheck::VectorIntegerStrict => "integer"@,
        RTypeCheck::VectorIntegerWide => "integer or whole-number numeric"@,
        RTypeCheck::Vector(t) => rtype_name(t),
        RTypeCheck::Nullable(inner) => if expectation_of(*inner) == "TRUE or FALSE"@ {
            "NULL, TRUE or FALSE"@
        } else {
            "NULL or "@ + expectation_of(*inner)
        },
        RTypeCheck::List => "a list"@,
    }
}

fn numeric_type_check(p: &str) -> (r: String)
    ensures
        r@ == numeric_pred(p@),
{
    let mut s = owned("is.numeric(");
    s.append(p);
    s.append(") || is.logical(");
    s.append(p);
    s.append(") || is.raw(");
    s.append(p);
    s.append(")");
    s
}

fn integer_vector_wide_check(p: &str) -> (r: String)
    ensures
        r@ == integer_wide_pred(p@),
{
    let mut s = owned("is.integer(");
    s.append(p);
    s.append(") || is.logical(");
    s.append(p);
    s.append(") || is.raw(");
    s.append(p);
    s.append(") || (is.numeric(");
    s.append(p);
    s.append(") && all(is.na(");
    s.append(p);
    s.append(") | ");
    s.append(p);
    s.append(" == trunc(");
    s.append(p);
    s.append(")))");
    s
}

fn numeric_or_text_check(p: &str) -> (r: String)
    ensures
        r@ == numeric_or_text_pred(p@),
{
    let mut s = owned("is.numeric(");
    s.append(p);
    s.append(") || is.logical(");
    s.append(p);
    s.append(") || is.character(");
    s.append(p);
    s.append(") || is.factor(");
    s.append(p);
    s.append(")");
    s
}

fn logical_or_integer_check(p: &str) -> (r: String)
    ensures
        r@ == logical_or_integer_pred(p@),
{
    let mut s = owned("is.logical(");
    s.append(p);
    s.append(") || is.integer(");
    s.append(p);
    s.append(")");
    s
}

fn call1(open: &str, p: &str) -> (r: String)
    ensures
        r@ == open@ + p@ + ")"@,
{
    let mut s = owned(open);
    s.append(p);
    s.append(")");
    s
}

fn is_type_check(t: RType, p: &str) -> (r: String)
    ensures
        r@ == is_type_pred(t, p@),
{
    let mut s = owned("is.");
    s.append(rtype_str(t));
    s.append("(");
    s.append(p);
    s.append(")");
    s
}

fn length_one_assertion(p: &str) -> (r: RAssertion)
    ensures
        r@ == length_one(p@),
{
    let mut c = owned("length(");
    c.append(p);
    c.append(") == 1L");
    new_assertion(p, "must have length 1", c)
}

fn must_be(t: RType) -> (r: String)
    ensures
        r@ == "must be "@ + rtype_name(t),
{
    let mut s = owned("must be ");
    s.append(rtype_str(t));
    s
}

impl RTypeCheck {
    /// The individual checks on parameter `param`.
    pub fn assertions(&self, param: &str) -> (r: Vec<RAssertion>)
        ensures
            aviews(r@) == check_assertions(*self, param@),
        decreases *self,
    {
        let mut out: Vec<RAssertion> = Vec::new();
        match self {
            RTypeCheck::ScalarNumeric => {
                push_assertion(&mut out, new_assertion(param, "must be numeric, logical, or raw", numeric_type_check(param)));
                push_assertion(&mut out, length_one_assertion(param));
            },
            RTypeCheck::ScalarLogicalOrInteger => {
                push_assertion(&mut out, new_assertion(param, "must be logical or integer", logical_or_integer_check(param)));
                push_assertion(&mut out, length_one_assertion(param));
            },
            RTypeCheck::VectorLogicalOrInteger => {
                push_assertion(&mut out, new_assertion(param, "must be logical or integer", logical_or_integer_check(param)));
            },
            RTypeCheck::ScalarIntegerWide => {
                push_assertion(&mut out, new_assertion(param, "must be integer or whole-number numeric", integer_vector_wide_check(param)));
                push_assertion(&mut out, length_one_assertion(param));
            },
            RTypeCheck::ScalarNonNeg => {
                push_assertion(&mut out, new_assertion(param, "must be numeric, logical, or raw", numeric_type_check(param)));
                push_assertion(&mut out, length_one_assertion(param));
                let mut c = owned("is.raw(");
                c.append(param);
                c.append(") || ");
                c.append(param);
                c.append(" >= 0");
                push_assertion(&mut out, new_assertion(param, "must be non-negative", c));
            },
            RTypeCheck::Scalar(t) => {
                let req = must_be(*t);
                push_assertion(&mut out, new_assertion(param, req.as_str(), is_type_check(*t, param)));
                push_assertion(&mut out, length_one_assertion(param));
            },
            RTypeCheck::VectorNumeric => {
                push_assertion(&mut out, new_assertion(param, "must be numeric, logical, or raw", numeric_type_check(param)));
            },
            RTypeCheck::VectorIntegerStrict => {
                push_assertion(&mut out, new_assertion(param, "must be an integer vector", call1("is.integer(", param)));
            },
            RTypeCheck::VectorIntegerWide => {
                push_assertion(&mut out, new_assertion(param, "must be integer or whole-number numeric", integer_vector_wide_check(param)));
            },
            RTypeCheck::Vector(t) => {
                let req = must_be(*t);
                push_assertion(&mut out, new_assertion(param, req.as_str(), is_type_check(*t, param)));
            },
            RTypeCheck::ScalarNumericOrText => {
                push_assertion(&mut out, new_assertion(param, "must be numeric, logical, character, or factor", numeric_or_text_check(param)));
                push_assertion(&mut out, length_one_assertion(param));
            },
            RTypeCheck::VectorNumericOrText => {
                push_assertion(&mut out, new_assertion(param, "must be numeric, logical, character, or factor", numeric_or_text_check(param)));
            },
            RTypeCheck::Nullable(inner) => {
                let inner_asserts = inner.assertions(param);
                let ghost iv = aviews(inner_asserts@);
                let mut mapped: Vec<RAssertion> = Vec::new();
                let n = inner_asserts.len();
                let mut k: usize = 0;
                while k < n
                    invariant
                        n == iv.len(),
                        iv == aviews(inner_asserts@),
                        k <= n,
                        aviews(mapped@) == iv.take(k as int).map_values(|a: AssertionView| nullable_view(a)),
                    decreases n - k,
                {
                    let a = clone_assertion(&inner_asserts[k]);
                    assert(a@ == iv[k as int]);
                    push_assertion(&mut mapped, a.nullable());
                    proof {
                        assert(iv.take(k + 1).map_values(|a: AssertionView| nullable_view(a)) =~= iv.take(k as int).map_values(|a: AssertionView| nullable_view(a)).push(nullable_view(iv[k as int])));
                    }
                    k = k + 1;
                }
                assert(iv.take(n as int) =~= iv);
                return mapped;
            },
            RTypeCheck::List => {
                push_assertion(&mut out, new_assertion(param, "must be a list", call1("is.list(", param)));
            },
        }
        assert(aviews(out@) =~= check_assertions(*self, param@));
        out
    }

    /// What an argument of this check must be, in R terms (`a single
    /// integer`, `numeric`, `NULL or a list`).
    pub fn expectation(&self) -> (r: String)
        ensures
            r@ == expectation_of(*self),
        decreases *self,
    {
        match self {
            RTypeCheck::ScalarNumeric => owned("a single number"),
            RTypeCheck::ScalarNumericOrText => owned("a single number"),
            RTypeCheck::ScalarLogicalOrInteger => owned("a single logical or integer"),
            RTypeCheck::VectorLogicalOrInteger => owned("logical or integer"),
            RTypeCheck::ScalarIntegerWide => owned("a single whole number"),
            RTypeCheck::ScalarNonNeg => owned("a single non-negative number"),
            RTypeCheck::Scalar(t) => match t {
                RType::Logical => owned("TRUE or FALSE"),
                RType::Character => owned("a single string"),
                RType::Integer => owned("a single integer"),
                RType::Double => owned("a single double"),
                _ => {
                    let mut s = owned("a single ");
                    s.append(rtype_str(*t));
                    s.append(" value");
                    s
                },
            },
            RTypeCheck::VectorNumeric => owned("numeric"),
            RTypeCheck::VectorNumericOrText => owned("numeric"),
            RTypeCheck::VectorIntegerStrict => owned("integer"),
            RTypeCheck::VectorIntegerWide => owned("integer or whole-number numeric"),
            RTypeCheck::Vector(t) => owned(rtype_str(*t)),
            RTypeCheck::Nullable(inner) => {
                let e = inner.expectation();
                if str_eq(e.as_str(), "TRUE or FALSE") {
                    owned("NULL, TRUE or FALSE")
                } else {
                    let mut s = owned("NULL or ");
                    s.append(e.as_str());
                    s
                }
            },
            RTypeCheck::List => owned("a list"),
        }
    }
}

// ---------------------------------------------------------------------------
// Classifying parameter types
// ---------------------------------------------------------------------------

/// The check of a `Vec<T>` / `&[T]` element type.
pub open spec fn r_check_vec_elem(elem: TypeModel) -> Option<RTypeCheck>
    decreases elem,
{
    match elem {
        TypeModel::Path(segs) => if segs@.len() == 0 {
            None
        } else {
            let seg = segs@[segs@.len() - 1];
            let id = seg.ident@;
            if id == "f64"@ {
                Some(RTypeCheck::Vector(RType::Double))
            } else if id == "f32"@ {
                Some(RTypeCheck::VectorNumeric)
            } else if id == "i32"@ {
                Some(RTypeCheck::VectorIntegerStrict)
            } else if id == "i8"@ || id == "i16"@ || id == "u16"@ || id == "u32"@ || id == "i64"@ || id == "u64"@
                || id == "isize"@ || id == "usize"@ {
                Some(RTypeCheck::VectorIntegerWide)
            } else if id == "bool"@ {
                Some(RTypeCheck::Vector(RType::Logical))
            } else if id == "String"@ {
                Some(RTypeCheck::Vector(RType::Character))
            } else if id == "u8"@ {
                Some(RTypeCheck::Vector(RType::Raw))
            } else if id == "Rcomplex"@ {
                Some(RTypeCheck::Vector(RType::Complex))
            } else if id == "Option"@ {
                match seg.args {
                    SegmentArgs::Angle(args) => if args@.len() > 0 {
                        match args@[0] {
                            GenericArg::Type(t) => r_check_vec_elem(t),
                            GenericArg::Other => None,
                        }
                    } else {
                        None
                    },
                    _ => None,
                }
            } else {
                None
            }
        },
        _ => None,
    }
}

/// The check of a reference type: `&str` / `&Path` are strings, `&[T]`
/// follows its element type.
pub open spec fn r_check_ref(elem: TypeModel) -> Option<RTypeCheck> {
    match elem {
        TypeModel::Path(segs) => if segs@.len() == 0 {
            None
        } else {
            let id = segs@[segs@.len() - 1].ident@;
            if id == "str"@ || id == "Path"@ {
                Some(RTypeCheck::Scalar(RType::Character))
            } else {
                None
            }
        },
        TypeModel::Slice(e) => r_check_vec_elem(*e),
        _ => None,
    }
}

/// The R-side check of a parameter type, if it has one (`None` for the skip
/// types `SEXP`, `Dots`, `Missing`, `ExternalPtr`, `OwnedProtect` and for
/// types the table does not know). Paths are matched by their last segment.
pub open spec fn r_check(ty: TypeModel) -> Option<RTypeCheck>
    decreases ty,
{
    match ty {
        TypeModel::Path(segs) => if segs@.len() == 0 {
            None
        } else {
            let seg = segs@[segs@.len() - 1];
            let id = seg.ident@;
            if id == "i32"@ {
                Some(RTypeCheck::Scalar(RType::Integer))
            } else if id == "f64"@ {
                Some(RTypeCheck::Scalar(RType::Double))
            } else if id == "f32"@ || id == "i8"@ || id == "i16"@ || id == "i64"@ || id == "isize"@ {
                Some(RTypeCheck::ScalarNumeric)
            } else if id == "u16"@ || id == "u32"@ || id == "u64"@ || id == "usize"@ {
                Some(RTypeCheck::ScalarNonNeg)
            } else if id == "bool"@ || id == "Rbool"@ || id == "Rboolean"@ {
                Some(RTypeCheck::Scalar(RType::Logical))
            } else if id == "String"@ || id == "char"@ || id == "PathBuf"@ {
                Some(RTypeCheck::Scalar(RType::Character))
            } else if id == "u8"@ {
                Some(RTypeCheck::Scalar(RType::Raw))
            } else if id == "Rcomplex"@ {
                Some(RTypeCheck::Scalar(RType::Complex))
            } else if id == "AsNumeric"@ {
                Some(RTypeCheck::ScalarNumericOrText)
            } else if id == "AsNumericVec"@ {
                Some(RTypeCheck::VectorNumericOrText)
            } else if id == "AsCharacter"@ {
                Some(RTypeCheck::Scalar(RType::Atomic))
            } else if id == "AsCharacterVec"@ {
                Some(RTypeCheck::Vector(RType::Atomic))
            } else if id == "Option"@ {
                match seg.args {
                    SegmentArgs::Angle(args) => if args@.len() > 0 {
                        match args@[0] {
                            GenericArg::Type(t) => match r_check(t) {
                                Some(c) => Some(RTypeCheck::Nullable(Box::new(c))),
                                None => None,
                            },
                            GenericArg::Other => None,
                        }
                    } else {
                        None
                    },
                    _ => None,
                }
            } else if id == "Vec"@ {
                match leading_type_arg(seg) {
                    Some(t) => r_check_vec_elem(t),
                    None => None,
                }
            } else if id == "HashMap"@ || id == "BTreeMap"@ || id == "NamedList"@ || id == "List"@ || id == "ListMut"@ {
                Some(RTypeCheck::List)
            } else {
                None
            }
        },
        TypeModel::Reference(_, inner) => r_check_ref(*inner),
        _ => None,
    }
}

/// The check of a `Vec<T>` / `&[T]` element type.
pub fn r_check_for_vec_element(elem: &TypeModel) -> (r: Option<RTypeCheck>)
    ensures
        r == r_check_vec_elem(*elem),
    decreases *elem,
{
    match elem {
        TypeModel::Path(segs) => {
            if segs.len() == 0 {
                return None;
            }
            let seg = &segs[segs.len() - 1];
            let id = seg.ident.as_str();
            if str_eq(id, "f64") {
                Some(RTypeCheck::Vector(RType::Double))
            } else if str_eq(id, "f32") {
                Some(RTypeCheck::VectorNumeric)
            } else if str_eq(id, "i32") {
                Some(RTypeCheck::VectorIntegerStrict)
            } else if str_eq(id, "i8") || str_eq(id, "i16") || str_eq(id, "u16") || str_eq(id, "u32") || str_eq(id, "i64")
                || str_eq(id, "u64") || str_eq(id, "isize") || str_eq(id, "usize") {
                Some(RTypeCheck::VectorIntegerWide)
            } else if str_eq(id, "bool") {
                Some(RTypeCheck::Vector(RType::Logical))
            } else if str_eq(id, "String") {
                Some(RTypeCheck::Vector(RType::Character))
            } else if str_eq(id, "u8") {
                Some(RTypeCheck::Vector(RType::Raw))
            } else if str_eq(id, "Rcomplex") {
                Some(RTypeCheck::Vector(RType::Complex))
            } else if str_eq(id, "Option") {
                match &seg.args {
                    SegmentArgs::Angle(args) => {
                        if args.len() > 0 {
                            match &args[0] {
                                GenericArg::Type(t) => r_check_for_vec_element(t),
                                GenericArg::Other => None,
                            }
                        } else {
                            None
                        }
                    },
                    _ => None,
                }
            } else {
                None
            }
        },
        _ => None,
    }
}

/// The check of a reference type.
pub fn r_check_for_reference(elem: &TypeModel) -> (r: Option<RTypeCheck>)
    ensures
        r == r_check_ref(*elem),
{
    match elem {
        TypeModel::Path(segs) => {
            if segs.len() == 0 {
                return None;
            }
            let id = segs[segs.len() - 1].ident.as_str();
            if str_eq(id, "str") || str_eq(id, "Path") {
                Some(RTypeCheck::Scalar(RType::Character))
            } else {
                None
            }
        },
        TypeModel::Slice(e) => r_check_for_vec_element(e),
        _ => None,
    }
}

/// The R-side check of a parameter type, if it has one.
pub fn r_check_for_type(ty: &TypeModel) -> (r: Option<RTypeCheck>)
    ensures
        r == r_check(*ty),
    decreases *ty,
{
    match ty {
        TypeModel::Path(segs) => {
            if segs.len() == 0 {
                return None;
            }
            let seg = &segs[segs.len() - 1];
            let id = seg.ident.as_str();
            if str_eq(id, "i32") {
                Some(RTypeCheck::Scalar(RType::Integer))
            } else if str_eq(id, "f64") {
                Some(RTypeCheck::Scalar(RType::Double))
            } else if str_eq(id, "f32") || str_eq(id, "i8") || str_eq(id, "i16") || str_eq(id, "i64") || str_eq(id, "isize") {
                Some(RTypeCheck::ScalarNumeric)
            } else if str_eq(id, "u16") || str_eq(id, "u32") || str_eq(id, "u64") || str_eq(id, "usize") {
                Some(RTypeCheck::ScalarNonNeg)
            } else if str_eq(id, "bool") || str_eq(id, "Rbool") || str_eq(id, "Rboolean") {
                Some(RTypeCheck::Scalar(RType::Logical))
            } else if str_eq(id, "String") || str_eq(id, "char") || str_eq(id, "PathBuf") {
                Some(RTypeCheck::Scalar(RType::Character))
            } else if str_eq(id, "u8") {
                Some(RTypeCheck::Scalar(RType::Raw))
            } else if str_eq(id, "Rcomplex") {
                Some(RTypeCheck::Scalar(RType::Complex))
            } else if str_eq(id, "AsNumeric") {
                Some(RTypeCheck::ScalarNumericOrText)
            } else if str_eq(id, "AsNumericVec") {
                Some(RTypeCheck::VectorNumericOrText)
            } else if str_eq(id, "AsCharacter") {
                Some(RTypeCheck::Scalar(RType::Atomic))
            } else if str_eq(id, "AsCharacterVec") {
                Some(RTypeCheck::Vector(RType::Atomic))
            } else if str_eq(id, "Option") {
                match &seg.args {
                    SegmentArgs::Angle(args) => {
                        if args.len() > 0 {
                            match &args[0] {
                                GenericArg::Type(t) => match r_check_for_type(t) {
                                    Some(c) => Some(RTypeCheck::Nullable(Box::new(c))),
                                    None => None,
                                },
                                GenericArg::Other => None,
                            }
                        } else {
                            None
                        }
                    },
                    _ => None,
                }
            } else if str_eq(id, "Vec") {
                match leading_type_argument(seg) {
                    Some(t) => r_check_for_vec_element(t),
                    None => None,
                }
            } else if str_eq(id, "HashMap") || str_eq(id, "BTreeMap") || str_eq(id, "NamedList") || str_eq(id, "List")
                || str_eq(id, "ListMut") {
                Some(RTypeCheck::List)
            } else {
                None
            }
        },
        TypeModel::Reference(_, inner) => r_check_for_reference(inner),
        _ => None,
    }
}

// ---------------------------------------------------------------------------
// Coercion
// ---------------------------------------------------------------------------

/// The coercing conversions that widen the R-side gate.
#[derive(Clone, Copy, Debug, PartialEq, Eq, Structural)]
pub enum CoercionMapping {
    Bool,
    BoolVec,
    NativeInt,
    NativeIntVec,
    NativeReal,
    NativeRealVec,
}

/// The coercing conversion of a type: `bool`, `i32`, `f64` and their `Vec`s.
pub open spec fn coercion_of(ty: TypeModel) -> Option<CoercionMapping> {
    match last_segment(ty) {
        Some(seg) => {
            let id = seg.ident@;
            if id == "bool"@ {
                Some(CoercionMapping::Bool)
            } else if id == "i32"@ {
                Some(CoercionMapping::NativeInt)
            } else if id == "f64"@ {
                Some(CoercionMapping::NativeReal)
            } else if id == "Vec"@ {
                match leading_type_arg(seg) {
                    Some(t) => {
                        let e = last_ident(t);
                        if e == Some("bool"@) {
                            Some(CoercionMapping::BoolVec)
                        } else if e == Some("i32"@) {
                            Some(CoercionMapping::NativeIntVec)
                        } else if e == Some("f64"@) {
                            Some(CoercionMapping::NativeRealVec)
                        } else {
                            None
                        }
                    },
                    None => None,
                }
            } else {
                None
            }
        },
        None => None,
    }
}

/// The check of a coerced parameter: the wider check its coercion accepts,
/// the same check for a type that has no coercion.
pub open spec fn widened(check: RTypeCheck, ty: TypeModel) -> RTypeCheck {
    match coercion_of(ty) {
        Some(CoercionMapping::Bool) => RTypeCheck::ScalarLogicalOrInteger,
        Some(CoercionMapping::BoolVec) => RTypeCheck::VectorLogicalOrInteger,
        Some(CoercionMapping::NativeInt) => RTypeCheck::ScalarIntegerWide,
        Some(CoercionMapping::NativeIntVec) => RTypeCheck::VectorIntegerWide,
        Some(CoercionMapping::NativeReal) => RTypeCheck::ScalarNumeric,
        Some(CoercionMapping::NativeRealVec) => RTypeCheck::VectorNumeric,
        None => check,
    }
}

/// The coercing conversion of a type.
pub fn coercion_mapping(ty: &TypeModel) -> (r: Option<CoercionMapping>)
    ensures
        r == coercion_of(*ty),
{
    match last_segment_of(ty) {
        Some(seg) => {
            let id = seg.ident.as_str();
            if str_eq(id, "bool") {
                Some(CoercionMapping::Bool)
            } else if str_eq(id, "i32") {
                Some(CoercionMapping::NativeInt)
            } else if str_eq(id, "f64") {
                Some(CoercionMapping::NativeReal)
            } else if str_eq(id, "Vec") {
                match leading_type_argument(seg) {
                    Some(t) => {
                        if last_ident_is(t, "bool") {
                            Some(CoercionMapping::BoolVec)
                        } else if last_ident_is(t, "i32") {
                            Some(CoercionMapping::NativeIntVec)
                        } else if last_ident_is(t, "f64") {
                            Some(CoercionMapping::NativeRealVec)
                        } else {
                            None
                        }
                    },
                    None => None,
                }
            } else {
                None
            }
        },
        None => None,
    }
}

/// Keep the R gate in step with the coercing conversion of `ty`: native
/// `i32` widens to whole-number doubles, `f64` to the loose numeric gate,
/// `bool` to logical or integer; other types keep their gate.
pub fn coerce_widened(check: RTypeCheck, ty: &TypeModel) -> (r: RTypeCheck)
    ensures
        r == widened(check, *ty),
{
    match coercion_mapping(ty) {
        Some(CoercionMapping::Bool) => RTypeCheck::ScalarLogicalOrInteger,
        Some(CoercionMapping::BoolVec) => RTypeCheck::VectorLogicalOrInteger,
        Some(CoercionMapping::NativeInt) => RTypeCheck::ScalarIntegerWide,
        Some(CoercionMapping::NativeIntVec) => RTypeCheck::VectorIntegerWide,
        Some(CoercionMapping::NativeReal) => RTypeCheck::ScalarNumeric,
        Some(CoercionMapping::NativeRealVec) => RTypeCheck::VectorNumeric,
        None => check,
    }
}

/// The R-facing expectation of a parameter of type `ty`, for the message of
/// its conversion failure: the expectation of its check (widened when
/// `coerced`), through a `Missing<T>` wrapper; `None` for a type without a
/// check.
pub open spec fn conversion_expectation_of(ty: TypeModel, coerced: bool) -> Option<Seq<char>> {
    let t = match missing_inner(ty) {
        Some(i) => i,
        None => ty,
    };
    match r_check(t) {
        Some(c) => Some(expectation_of(if coerced {
            widened(c, t)
        } else {
            c
        })),
        None => None,
    }
}

/// The R-facing expectation of a parameter type.
pub fn conversion_expectation(ty: &TypeModel, coerced: bool) -> (r: Option<String>)
    ensures
        match r {
            Some(e) => conversion_expectation_of(*ty, coerced) == Some(e@),
            None => conversion_expectation_of(*ty, coerced) is None,
        },
{
    let t = match missing_inner_type(ty) {
        Some(i) => i,
        None => ty,
    };
    match r_check_for_type(t) {
        Some(c) => {
            let c = if coerced {
                coerce_widened(c, t)
            } else {
                c
            };
            Some(c.expectation())
        },
        None => None,
    }
}

// ---------------------------------------------------------------------------
// Checks the author names
// ---------------------------------------------------------------------------

/// Checks the author asked for by name on one parameter (`inherits`,
/// `no_na`), each with an optional message of the author's.
#[derive(Clone, Debug, PartialEq, Eq)]
pub struct ExplicitChecks {
    /// The argument must inherit from at least one of these classes.
    pub inherits: Option<Vec<String>>,
    /// The failure message of the class check.
    pub inherits_message: Option<String>,
    /// The argument must not contain `NA`.
    pub no_na: bool,
    /// The failure message of the NA check.
    pub no_na_message: Option<String>,
}

/// A class list for `inherits` is never empty.
pub open spec fn explicit_wf(e: ExplicitChecks) -> bool {
    e.inherits matches Some(v) ==> v@.len() > 0
}

/// The error of a second message for the same check.
pub open spec fn second_message_error(check: Seq<char>) -> Seq<char> {
    "`"@ + check + "` is given more than one `message` on this parameter; give it once"@
}

/// Record `from` as the message of `check`, which may have only one: an
/// error when both `into` and `from` hold one.
pub fn merge_message(into: &mut Option<String>, from: Option<String>, check: &str) -> (r: Result<(), String>)
    ensures
        match (old(into), from) {
            (Some(_), Some(_)) => r matches Err(e) && e@ == second_message_error(check@) && *final(into) == *old(into),
            (None, Some(m)) => r is Ok && *final(into) == Some(m),
            (_, None) => r is Ok && *final(into) == *old(into),
        },
{
    match (into.is_some(), from) {
        (true, Some(_)) => {
            let mut e = owned("`");
            e.append(check);
            e.append("` is given more than one `message` on this parameter; give it once");
            Err(e)
        },
        (false, Some(message)) => {
            *into = Some(message);
            Ok(())
        },
        (_, None) => Ok(()),
    }
}

/// The message a check keeps when two attributes are merged.
pub open spec fn merged_message(a: Option<String>, b: Option<String>) -> Option<String> {
    match b {
        Some(m) => Some(m),
        None => a,
    }
}

/// A class list as a sequence of strings, if there is one.
pub open spec fn class_views(v: Option<Vec<String>>) -> Option<Seq<String>> {
    match v {
        Some(cs) => Some(cs@),
        None => None,
    }
}

/// The class list after merging: the two lists one after the other.
pub open spec fn merged_classes(a: Option<Vec<String>>, b: Option<Vec<String>>) -> Option<Seq<String>> {
    match b {
        Some(cs) => Some(
            match a {
                Some(o) => o@,
                None => Seq::empty(),
            } + cs@,
        ),
        None => class_views(a),
    }
}

impl Default for ExplicitChecks {
    /// No check and no message.
    fn default() -> (r: Self)
        ensures
            r.inherits is None,
            r.inherits_message is None,
            !r.no_na,
            r.no_na_message is None,
    {
        ExplicitChecks { inherits: None, inherits_message: None, no_na: false, no_na_message: None }
    }
}

impl ExplicitChecks {
    /// Whether no check is requested.
    pub fn is_empty(&self) -> (r: bool)
        ensures
            r == (self.inherits is None && !self.no_na),
    {
        self.inherits.is_none() && !self.no_na
    }

    /// Merge the checks of another attribute on the same parameter: class
    /// lists concatenate, `no_na` accumulates. Fails, naming the check, when
    /// both give a message for the same check (the class message is merged
    /// first, so it stays merged when the NA message then fails).
    pub fn merge(&mut self, other: ExplicitChecks) -> (r: Result<(), String>)
        ensures
            old(self).inherits_message is Some && other.inherits_message is Some ==> (r matches Err(e)
                && e@ == second_message_error("inherits"@) && *final(self) == *old(self)),
            !(old(self).inherits_message is Some && other.inherits_message is Some)
                && old(self).no_na_message is Some && other.no_na_message is Some ==> (r matches Err(e)
                && e@ == second_message_error("no_na"@) && final(self).inherits == old(self).inherits
                && final(self).no_na == old(self).no_na && final(self).no_na_message == old(self).no_na_message
                && final(self).inherits_message == merged_message(old(self).inherits_message, other.inherits_message)),
            !(old(self).inherits_message is Some && other.inherits_message is Some)
                && !(old(self).no_na_message is Some && other.no_na_message is Some) ==> (r is Ok
                && final(self).inherits_message == merged_message(old(self).inherits_message, other.inherits_message)
                && final(self).no_na_message == merged_message(old(self).no_na_message, other.no_na_message)
                && final(self).no_na == (old(self).no_na || other.no_na)
                && class_views(final(self).inherits) == merged_classes(old(self).inherits, other.inherits)),
    {
        let ExplicitChecks { inherits, inherits_message, no_na, no_na_message } = other;
        let r1 = merge_message(&mut self.inherits_message, inherits_message, "inherits");
        if r1.is_err() {
            return r1;
        }
        let r2 = merge_message(&mut self.no_na_message, no_na_message, "no_na");
        if r2.is_err() {
            return r2;
        }
        match inherits {
            Some(classes) => {
                let mut all: Vec<String> = match &self.inherits {
                    Some(v) => clone_strings(v),
                    None => Vec::new(),
                };
                let ghost start = all@;
                let mut add = classes;
                all.append(&mut add);
                self.inherits = Some(all);
            },
            None => {},
        }
        self.no_na = self.no_na || no_na;
        Ok(())
    }
}

/// A copy of a list of strings.
pub fn clone_strings(v: &Vec<String>) -> (r: Vec<String>)
    ensures
        r@ == v@,
{
    let mut out: Vec<String> = Vec::new();
    let mut i: usize = 0;
    while i < v.len()
        invariant
            i <= v@.len(),
            out@ == v@.take(i as int),
        decreases v@.len() - i,
    {
        out.push(v[i].clone());
        proof {
            assert(out@ =~= v@.take(i + 1));
        }
        i = i + 1;
    }
    assert(v@.take(v@.len() as int) =~= v@);
    out
}


// ---------------------------------------------------------------------------
// Assertions of the named checks
// ---------------------------------------------------------------------------

/// Whether a value of type `ty` is a vector rather than a scalar: a `Vec`, a
/// slice or an array, or a reference to one.
pub open spec fn is_vector_like(ty: TypeModel) -> bool
    decreases ty,
{
    match ty {
        TypeModel::Slice(_) => true,
        TypeModel::Array(..) => true,
        TypeModel::Reference(_, inner) => is_vector_like(*inner),
        _ => last_ident(ty) == Some("Vec"@),
    }
}

/// Whether a value of type `ty` is a vector rather than a scalar.
pub fn is_vector_like_type(ty: &TypeModel) -> (r: bool)
    ensures
        r == is_vector_like(*ty),
    decreases ty,
{
    match ty {
        TypeModel::Slice(_) => true,
        TypeModel::Array(..) => true,
        TypeModel::Reference(_, inner) => is_vector_like_type(inner),
        _ => last_ident_is(ty, "Vec"),
    }
}

/// A class name quoted for a message: `'cls'`.
pub open spec fn quoted_class(c: Seq<char>) -> Seq<char> {
    "'"@ + r_escape(c) + "'"@
}

/// A class name as an R string literal: `"cls"`.
pub open spec fn class_literal(c: Seq<char>) -> Seq<char> {
    "\""@ + r_escape(c) + "\""@
}

/// The classes of a message: `'a'`, or `'a', 'b' or 'c'`.
pub open spec fn class_names_text(cs: Seq<Seq<char>>) -> Seq<char> {
    if cs.len() == 1 {
        quoted_class(cs[0])
    } else {
        join(cs.drop_last().map_values(|c: Seq<char>| quoted_class(c)), ", "@) + " or "@ + quoted_class(cs.last())
    }
}

/// The class argument of `inherits()`: `"a"`, or `c("a", "b")`.
pub open spec fn class_arg_text(cs: Seq<Seq<char>>) -> Seq<char> {
    if cs.len() == 1 {
        class_literal(cs[0])
    } else {
        "c("@ + join(cs.map_values(|c: Seq<char>| class_literal(c)), ", "@) + ")"@
    }
}

/// The type of the value inside the `Missing<..>` and `Option<..>` wrappers.
pub open spec fn value_type(ty: TypeModel) -> TypeModel {
    let t = match missing_inner(ty) {
        Some(t) => t,
        None => ty,
    };
    match option_inner(t) {
        Some(u) => u,
        None => t,
    }
}

/// What a named check lets through before its own test: an omitted
/// `Missing<..>` argument, a `NULL` for an `Option<..>`.
pub open spec fn pass_prefix(param: Seq<char>, ty: TypeModel) -> Seq<char> {
    if is_missing(ty) {
        "missing("@ + param + ") || "@
    } else if option_inner(ty) is Some {
        "is.null("@ + param + ") || "@
    } else {
        Seq::empty()
    }
}

/// The assertions of the named checks on `param` of type `ty`: the NA check
/// first, then the class check.
pub open spec fn explicit_assertions(e: ExplicitChecks, param: Seq<char>, ty: TypeModel) -> Seq<AssertionView> {
    let pre = pass_prefix(param, ty);
    let na: Seq<AssertionView> = if e.no_na {
        seq![AssertionView {
            param,
            requirement: if is_vector_like(value_type(ty)) {
                "must not contain NA"@
            } else {
                "must not be NA"@
            },
            condition: pre + "!anyNA("@ + param + ")"@,
            message: opt_view(e.no_na_message),
        }]
    } else {
        Seq::empty()
    };
    let inh: Seq<AssertionView> = match e.inherits {
        Some(cs) => seq![AssertionView {
            param,
            requirement: "must inherit from "@ + class_names_text(views(cs@)),
            condition: pre + "inherits("@ + param + ", "@ + class_arg_text(views(cs@)) + ")"@,
            message: opt_view(e.inherits_message),
        }],
        None => Seq::empty(),
    };
    na + inh
}

fn quote_class(c: &str) -> (r: String)
    ensures
        r@ == quoted_class(c@),
{
    let e = r_string_escape(c);
    concat3("'", e.as_str(), "'")
}

fn literal_class(c: &str) -> (r: String)
    ensures
        r@ == class_literal(c@),
{
    let e = r_string_escape(c);
    concat3("\"", e.as_str(), "\"")
}

/// A class name in the form of a message (`'a'`) or of an R literal (`"a"`).
pub open spec fn class_text(c: Seq<char>, literal: bool) -> Seq<char> {
    if literal {
        class_literal(c)
    } else {
        quoted_class(c)
    }
}

/// The first `n` classes, each in the form `literal` picks.
fn map_classes(cs: &Vec<String>, n: usize, literal: bool) -> (r: Vec<String>)
    requires
        n <= cs.len(),
    ensures
        r@.len() == n,
        forall|j: int| 0 <= j < n ==> #[trigger] r@[j]@ == class_text(cs@[j]@, literal),
{
    let mut out: Vec<String> = Vec::new();
    let mut i: usize = 0;
    while i < n
        invariant
            i <= n,
            n <= cs.len(),
            out@.len() == i,
            forall|j: int| 0 <= j < i ==> #[trigger] out@[j]@ == class_text(cs@[j]@, literal),
        decreases n - i,
    {
        let q = if literal {
            literal_class(cs[i].as_str())
        } else {
            quote_class(cs[i].as_str())
        };
        out.push(q);
        i = i + 1;
    }
    out
}

/// The classes of a failure message.
fn class_names(cs: &Vec<String>) -> (r: String)
    requires
        cs.len() > 0,
    ensures
        r@ == class_names_text(views(cs@)),
{
    let n = cs.len();
    if n == 1 {
        quote_class(cs[0].as_str())
    } else {
        let init = map_classes(cs, n - 1, false);
        let joined = join_strings(&init, ", ");
        let last = quote_class(cs[n - 1].as_str());
        proof {
            assert(views(init@) =~= views(cs@).drop_last().map_values(|c: Seq<char>| quoted_class(c)));
        }
        concat3(joined.as_str(), " or ", last.as_str())
    }
}

/// The class argument of `inherits()`.
fn class_arg(cs: &Vec<String>) -> (r: String)
    requires
        cs.len() > 0,
    ensures
        r@ == class_arg_text(views(cs@)),
{
    let n = cs.len();
    if n == 1 {
        literal_class(cs[0].as_str())
    } else {
        let all = map_classes(cs, n, true);
        let joined = join_strings(&all, ", ");
        proof {
            assert(views(all@) =~= views(cs@).map_values(|c: Seq<char>| class_literal(c)));
        }
        concat3("c(", joined.as_str(), ")")
    }
}

fn pass_prefix_text(param: &str, ty: &TypeModel) -> (r: String)
    ensures
        r@ == pass_prefix(param@, *ty),
{
    if is_missing_type(ty) {
        concat3("missing(", param, ") || ")
    } else if option_inner_type(ty).is_some() {
        concat3("is.null(", param, ") || ")
    } else {
        String::new()
    }
}

fn value_type_of(ty: &TypeModel) -> (r: &TypeModel)
    ensures
        *r == value_type(*ty),
{
    let t = match missing_inner_type(ty) {
        Some(t) => t,
        None => ty,
    };
    match option_inner_type(t) {
        Some(u) => u,
        None => t,
    }
}

fn clone_opt(o: &Option<String>) -> (r: Option<String>)
    ensures
        opt_view(r) == opt_view(*o),
{
    match o {
        Some(s) => Some(s.clone()),
        None => None,
    }
}

impl ExplicitChecks {
    /// The assertions of these checks on `param` of type `ty`, NA check
    /// first. An `Option<T>` parameter passes `NULL` and a `Missing<T>`
    /// parameter passes when omitted; the requirement names only the check.
    pub fn assertions(&self, param: &str, ty: &TypeModel) -> (r: Vec<RAssertion>)
        requires
            explicit_wf(*self),
        ensures
            aviews(r@) == explicit_assertions(*self, param@, *ty),
    {
        let mut out: Vec<RAssertion> = Vec::new();
        let pre = pass_prefix_text(param, ty);
        if self.no_na {
            let requirement = if is_vector_like_type(value_type_of(ty)) {
                owned("must not contain NA")
            } else {
                owned("must not be NA")
            };
            let condition = concat4(pre.as_str(), "!anyNA(", param, ")");
            let a = RAssertion { param: owned(param), requirement, condition, message: clone_opt(&self.no_na_message) };
            push_assertion(&mut out, a);
        }
        match &self.inherits {
            Some(cs) => {
                let names = class_names(cs);
                let arg = class_arg(cs);
                let requirement = concat2("must inherit from ", names.as_str());
                let condition = concat5(pre.as_str(), "inherits(", param, ", ", arg.as_str());
                let condition = concat2(condition.as_str(), ")");
                let a = RAssertion {
                    param: owned(param),
                    requirement,
                    condition,
                    message: clone_opt(&self.inherits_message),
                };
                push_assertion(&mut out, a);
            },
            None => {},
        }
        proof {
            let e = explicit_assertions(*self, param@, *ty);
            assert(aviews(out@) =~= e);
        }
        out
    }
}


// ---------------------------------------------------------------------------
// Options and the checks of a signature
// ---------------------------------------------------------------------------

/// Per-function knobs of the checks.
///
/// Coercion keeps numeric inputs, extends `bool` / `Vec<bool>` checks to
/// integers as well as logicals, and widens the native `i32` / `Vec<i32>`
/// gates to whole-number doubles; other types keep their checks.
#[derive(Clone, Default)]
pub struct PreconditionOptions {
    /// `coerce` is active for every parameter.
    pub coerce_all: bool,
    /// R names of the parameters with their own `coerce` (a set: no name twice).
    pub coerce_params: Vec<String>,
    /// The checks the author named per parameter, keyed by R name (a map: no
    /// name twice).
    pub explicit: Vec<(String, ExplicitChecks)>,
    /// `no_preconditions` / `fast`: drop the checks derived from parameter
    /// types; the named checks stay.
    pub no_type_checks: bool,
}

/// The checks named for `key` (the binding of the name).
pub open spec fn explicit_for(pairs: Seq<(String, ExplicitChecks)>, key: Seq<char>) -> Option<ExplicitChecks>
    decreases pairs.len(),
{
    if pairs.len() == 0 {
        None
    } else if pairs[0].0@ == key {
        Some(pairs[0].1)
    } else {
        explicit_for(pairs.drop_first(), key)
    }
}

/// The options are a set and a map: no name occurs twice, and every class
/// list is non-empty.
pub open spec fn options_wf(o: PreconditionOptions) -> bool {
    &&& forall|i: int, j: int|
        0 <= i < j < o.coerce_params@.len() ==> o.coerce_params@[i]@ != o.coerce_params@[j]@
    &&& forall|i: int, j: int|
        0 <= i < j < o.explicit@.len() ==> o.explicit@[i].0@ != o.explicit@[j].0@
    &&& forall|i: int| 0 <= i < o.explicit@.len() ==> explicit_wf(#[trigger] o.explicit@[i].1)
}

/// Whether the parameter `r_name` is coerced, function-wide or by itself.
pub open spec fn coerced(o: PreconditionOptions, r_name: Seq<char>) -> bool {
    o.coerce_all || views(o.coerce_params@).contains(r_name)
}

impl PreconditionOptions {
    /// Whether the parameter `r_name` is coerced (function-wide or per
    /// parameter).
    pub fn is_coerced(&self, r_name: &str) -> (r: bool)
        ensures
            r == coerced(*self, r_name@),
    {
        self.coerce_all || contains_string(self.coerce_params.as_slice(), r_name)
    }
}

/// The checks named for `key`.
fn explicit_lookup<'a>(pairs: &'a Vec<(String, ExplicitChecks)>, key: &str) -> (r: Option<&'a ExplicitChecks>)
    requires
        forall|i: int| 0 <= i < pairs@.len() ==> explicit_wf(#[trigger] pairs@[i].1),
    ensures
        match r {
            Some(e) => explicit_for(pairs@, key@) == Some(*e) && explicit_wf(*e),
            None => explicit_for(pairs@, key@) is None,
        },
{
    let mut i: usize = 0;
    assert(pairs@.skip(0) =~= pairs@);
    while i < pairs.len()
        invariant
            i <= pairs.len(),
            explicit_for(pairs@, key@) == explicit_for(pairs@.skip(i as int), key@),
            forall|k: int| 0 <= k < pairs@.len() ==> explicit_wf(#[trigger] pairs@[k].1),
        decreases pairs.len() - i,
    {
        proof {
            assert(pairs@.skip(i as int).drop_first() =~= pairs@.skip(i + 1));
        }
        if str_eq(pairs[i].0.as_str(), key) {
            return Some(&pairs[i].1);
        }
        i = i + 1;
    }
    None
}

/// A parameter whose type has no check in the table. No R-side check is
/// written for it: the Rust conversion reports its errors.
pub struct FallbackParam {
    /// The R name of the parameter.
    pub r_name: String,
}

/// The checks of a signature.
pub struct PreconditionOutput {
    /// The checks, in parameter order: each parameter's type checks, then its
    /// named checks.
    pub assertions: Vec<RAssertion>,
    /// The parameters of unknown types, which are not checked.
    pub fallback_params: Vec<FallbackParam>,
}

/// The view of an optional string slice.
pub open spec fn opt_str_view(o: Option<&str>) -> Option<Seq<char>> {
    match o {
        Some(s) => Some(s@),
        None => None,
    }
}

/// The guard lines of a list of checks.
pub open spec fn guard_lines(v: Seq<AssertionView>, call: Option<Seq<char>>) -> Seq<Seq<char>> {
    v.map_values(|a: AssertionView| guard_text(a, call))
}

/// The R names of the unchecked parameters.
pub open spec fn fallback_names(v: Seq<FallbackParam>) -> Seq<Seq<char>> {
    v.map_values(|f: FallbackParam| f.r_name@)
}

impl PreconditionOutput {
    /// One guard line per check, in order; `call` is the call a failure is
    /// attributed to (`None` for the wrapper's own call).
    pub fn guards(&self, call: Option<&str>) -> (r: Vec<String>)
        ensures
            views(r@) == guard_lines(aviews(self.assertions@), opt_str_view(call)),
    {
        let mut out: Vec<String> = Vec::new();
        let mut i: usize = 0;
        while i < self.assertions.len()
            invariant
                i <= self.assertions@.len(),
                views(out@) == guard_lines(aviews(self.assertions@.take(i as int)), opt_str_view(call)),
            decreases self.assertions@.len() - i,
        {
            let g = self.assertions[i].to_guard(call);
            proof {
                assert(aviews(self.assertions@.take(i + 1)) =~= aviews(self.assertions@.take(i as int)).push(
                    self.assertions@[i as int]@,
                ));
                assert(guard_lines(aviews(self.assertions@.take(i + 1)), opt_str_view(call)) =~= guard_lines(
                    aviews(self.assertions@.take(i as int)),
                    opt_str_view(call),
                ).push(g@));
            }
            push_string(&mut out, g);
            i = i + 1;
        }
        assert(self.assertions@.take(self.assertions@.len() as int) =~= self.assertions@);
        out
    }
}

/// The types that never get a check of their own: `SEXP` is passed as is,
/// `Dots` and `Missing` belong to the wrapper, `ExternalPtr` and
/// `OwnedProtect` are managed inside.
pub open spec fn skip_ident(id: Seq<char>) -> bool {
    id == "SEXP"@ || id == "Dots"@ || id == "Missing"@ || id == "ExternalPtr"@ || id == "OwnedProtect"@
}

/// Whether `ident` names a type that never gets a check of its own.
pub fn is_skip_type(ident: &str) -> (r: bool)
    ensures
        r == skip_ident(ident@),
{
    str_eq(ident, "SEXP") || str_eq(ident, "Dots") || str_eq(ident, "Missing") || str_eq(ident, "ExternalPtr")
        || str_eq(ident, "OwnedProtect")
}

/// Whether a type without a check is recorded as unchecked: a path type
/// other than the skipped ones.
pub open spec fn needs_fallback_spec(ty: TypeModel) -> bool {
    match last_ident(ty) {
        Some(id) => !skip_ident(id),
        None => false,
    }
}

/// Whether a type without a check is recorded as unchecked.
pub fn needs_fallback(ty: &TypeModel) -> (r: bool)
    ensures
        r == needs_fallback_spec(*ty),
{
    match last_segment_of(ty) {
        Some(seg) => !is_skip_type(seg.ident.as_str()),
        None => false,
    }
}

/// Whether the type checks of the parameter named `r` are written.
pub open spec fn type_checked(r: Seq<char>, skip: Seq<Seq<char>>, opts: PreconditionOptions) -> bool {
    !opts.no_type_checks && !skip.contains(r)
}

/// The checks of one parameter: its type checks (widened when coerced),
/// then its named checks.
pub open spec fn param_checks(p: Param, skip: Seq<Seq<char>>, opts: PreconditionOptions) -> Seq<AssertionView> {
    match p {
        Param::Typed { name: Some(n), ty } => {
            let r = r_arg_name(n@);
            let typed = if type_checked(r, skip, opts) {
                match r_check(ty) {
                    Some(c) => check_assertions(
                        if coerced(opts, r) {
                            widened(c, ty)
                        } else {
                            c
                        },
                        r,
                    ),
                    None => Seq::empty(),
                }
            } else {
                Seq::empty()
            };
            let named = match explicit_for(opts.explicit@, r) {
                Some(e) => explicit_assertions(e, r, ty),
                None => Seq::empty(),
            };
            typed + named
        },
        _ => Seq::empty(),
    }
}

/// The unchecked parameter a parameter is, if it is one.
pub open spec fn param_fallback(p: Param, skip: Seq<Seq<char>>, opts: PreconditionOptions) -> Seq<Seq<char>> {
    match p {
        Param::Typed { name: Some(n), ty } => {
            let r = r_arg_name(n@);
            if type_checked(r, skip, opts) && r_check(ty) is None && needs_fallback_spec(ty) {
                seq![r]
            } else {
                Seq::empty()
            }
        },
        _ => Seq::empty(),
    }
}

/// The checks of the first `n` parameters.
pub open spec fn signature_checks(inputs: Seq<Param>, skip: Seq<Seq<char>>, opts: PreconditionOptions, n: int) -> Seq<
    AssertionView,
>
    decreases n,
{
    if n <= 0 {
        Seq::empty()
    } else {
        signature_checks(inputs, skip, opts, n - 1) + param_checks(inputs[n - 1], skip, opts)
    }
}

/// The unchecked parameters among the first `n`.
pub open spec fn signature_fallbacks(inputs: Seq<Param>, skip: Seq<Seq<char>>, opts: PreconditionOptions, n: int) -> Seq<
    Seq<char>,
>
    decreases n,
{
    if n <= 0 {
        Seq::empty()
    } else {
        signature_fallbacks(inputs, skip, opts, n - 1) + param_fallback(inputs[n - 1], skip, opts)
    }
}

fn append_assertions(out: &mut Vec<RAssertion>, more: Vec<RAssertion>)
    ensures
        aviews(final(out)@) == aviews(old(out)@) + aviews(more@),
{
    let ghost before = out@;
    let ghost added = more@;
    let mut more = more;
    out.append(&mut more);
    assert(aviews(out@) =~= aviews(before) + aviews(added));
}

/// The checks of one parameter and whether it is an unchecked one.
fn checks_of_param(p: &Param, skip: &[String], opts: &PreconditionOptions) -> (r: (Vec<RAssertion>, Option<String>))
    requires
        options_wf(*opts),
    ensures
        aviews(r.0@) == param_checks(*p, views(skip@), *opts),
        match r.1 {
            Some(n) => param_fallback(*p, views(skip@), *opts) == seq![n@],
            None => param_fallback(*p, views(skip@), *opts) == Seq::<Seq<char>>::empty(),
        },
{
    match p {
        Param::Typed { name: Some(n), ty } => {
            let r = normalize_r_arg_string(n.as_str());
            let mut out: Vec<RAssertion> = Vec::new();
            let mut fallback: Option<String> = None;
            if !opts.no_type_checks && !contains_string(skip, r.as_str()) {
                match r_check_for_type(ty) {
                    Some(c) => {
                        let c = if opts.is_coerced(r.as_str()) {
                            coerce_widened(c, ty)
                        } else {
                            c
                        };
                        out = c.assertions(r.as_str());
                    },
                    None => {
                        if needs_fallback(ty) {
                            fallback = Some(r.clone());
                        }
                    },
                }
            }
            match explicit_lookup(&opts.explicit, r.as_str()) {
                Some(e) => {
                    let named = e.assertions(r.as_str(), ty);
                    append_assertions(&mut out, named);
                },
                None => {
                    assert(aviews(out@) =~= aviews(out@) + Seq::<AssertionView>::empty());
                },
            }
            (out, fallback)
        },
        _ => (Vec::new(), None),
    }
}

/// The R-side checks of a signature.
///
/// Skips receivers and parameters that are not plain identifiers. The type
/// checks of a parameter are left out under `no_type_checks` and for the
/// names in `skip_params` (already validated by `match.arg()`); a parameter
/// whose type has no check and is not one of the skipped types is recorded
/// as unchecked. The named checks of a parameter follow its type checks and
/// are never left out.
pub fn build_precondition_checks(inputs: &[Param], skip_params: &[String], opts: &PreconditionOptions) -> (r:
    PreconditionOutput)
    requires
        options_wf(*opts),
    ensures
        aviews(r.assertions@) == signature_checks(inputs@, views(skip_params@), *opts, inputs@.len() as int),
        fallback_names(r.fallback_params@) == signature_fallbacks(
            inputs@,
            views(skip_params@),
            *opts,
            inputs@.len() as int,
        ),
{
    let mut assertions: Vec<RAssertion> = Vec::new();
    let mut fallback_params: Vec<FallbackParam> = Vec::new();
    let mut i: usize = 0;
    while i < inputs.len()
        invariant
            i <= inputs@.len(),
            options_wf(*opts),
            aviews(assertions@) == signature_checks(inputs@, views(skip_params@), *opts, i as int),
            fallback_names(fallback_params@) == signature_fallbacks(inputs@, views(skip_params@), *opts, i as int),
        decreases inputs@.len() - i,
    {
        let (checks, fallback) = checks_of_param(&inputs[i], skip_params, opts);
        append_assertions(&mut assertions, checks);
        let ghost before = fallback_params@;
        match fallback {
            Some(n) => {
                fallback_params.push(FallbackParam { r_name: n });
                assert(fallback_names(fallback_params@) =~= fallback_names(before) + param_fallback(
                    inputs@[i as int],
                    views(skip_params@),
                    *opts,
                ));
            },
            None => {
                assert(fallback_names(fallback_params@) =~= fallback_names(before) + param_fallback(
                    inputs@[i as int],
                    views(skip_params@),
                    *opts,
                ));
            },
        }
        i = i + 1;
    }
    PreconditionOutput { assertions, fallback_params }
}


// ---------------------------------------------------------------------------
// Laws
// ---------------------------------------------------------------------------

/// Every digit of `hex(n)` is a lowercase hexadecimal digit.
proof fn lemma_hex_digits(n: nat)
    ensures
        forall|i: int| 0 <= i < hex(n).len() ==> ('0' <= #[trigger] hex(n)[i] <= '9' || 'a' <= hex(n)[i] <= 'f'),
    decreases n,
{
    if n >= 16 {
        lemma_hex_digits(n / 16);
        let d = (n % 16) as int;
        assert('0' <= hex_digit(d) <= '9' || 'a' <= hex_digit(d) <= 'f');
        assert forall|i: int| 0 <= i < hex(n).len() implies ('0' <= #[trigger] hex(n)[i] <= '9' || 'a' <= hex(n)[i]
            <= 'f') by {
            if i < hex(n / 16).len() {
                assert(hex(n)[i] == hex(n / 16)[i]);
            }
        }
    }
}

/// An escaped string is printable ASCII: R code in a package must be ASCII,
/// so every character of a check's message reaches the wrappers file as
/// `' '..='~'`.
pub proof fn lemma_r_escape_printable(s: Seq<char>)
    ensures
        forall|i: int| 0 <= i < r_escape(s).len() ==> ' ' <= #[trigger] r_escape(s)[i] <= '~',
    decreases s.len(),
{
    if s.len() > 0 {
        lemma_r_escape_printable(s.drop_last());
        let c = s.last();
        let e = r_escape_char(c);
        lemma_hex_digits(c as nat);
        assert forall|i: int| 0 <= i < e.len() implies ' ' <= #[trigger] e[i] <= '~' by {
            if !(c == '\\' || c == '"' || c == '\n' || c == '\r' || c == '\t' || (' ' <= c && c <= '~')) {
                let h = hex(c as nat);
                if (c as int) <= 0xFFFF {
                    assert(e == seq!['\\', 'u', '{'] + h + seq!['}']);
                } else {
                    assert(e == seq!['\\', 'U', '{'] + h + seq!['}']);
                }
                if 3 <= i < 3 + h.len() {
                    assert(e[i] == h[i - 3]);
                }
            }
        }
        let prev = r_escape(s.drop_last());
        assert forall|i: int| 0 <= i < r_escape(s).len() implies ' ' <= #[trigger] r_escape(s)[i] <= '~' by {
            if i < prev.len() {
                assert(r_escape(s)[i] == prev[i]);
            } else {
                assert(r_escape(s)[i] == e[i - prev.len()]);
            }
        }
    }
}

/// The value of a hexadecimal digit (`0`-`9`, `a`-`f`, `A`-`F`).
pub open spec fn hex_digit_value(c: char) -> nat {
    if '0' <= c <= '9' {
        (c as int - 48) as nat
    } else if 'a' <= c <= 'f' {
        (c as int - 87) as nat
    } else if 'A' <= c <= 'F' {
        (c as int - 55) as nat
    } else {
        0
    }
}

/// The value of a run of hexadecimal digits.
pub open spec fn hex_value(d: Seq<char>) -> nat
    decreases d.len(),
{
    if d.len() == 0 {
        0
    } else {
        hex_value(d.drop_last()) * 16 + hex_digit_value(d.last())
    }
}

/// The position of the first `}` at or after `i` (the length when there is
/// none).
pub open spec fn close_brace(t: Seq<char>, i: int) -> int
    decreases t.len() - i,
{
    if i < 0 || i >= t.len() {
        t.len() as int
    } else if t[i] == '}' {
        i
    } else {
        close_brace(t, i + 1)
    }
}

/// The text R reads from the inside of a double-quoted string literal:
/// `\\`, `\"`, `\n`, `\r`, `\t` and `\u{..}` / `\U{..}` (hexadecimal code
/// points) are escapes; every other character stands for itself.
pub open spec fn r_read(t: Seq<char>) -> Seq<char>
    decreases t.len(),
{
    if t.len() == 0 {
        Seq::empty()
    } else if t[0] == '\\' && t.len() >= 2 {
        let e = t[1];
        if e == '\\' {
            seq!['\\'] + r_read(t.skip(2))
        } else if e == '"' {
            seq!['"'] + r_read(t.skip(2))
        } else if e == 'n' {
            seq!['\n'] + r_read(t.skip(2))
        } else if e == 'r' {
            seq!['\r'] + r_read(t.skip(2))
        } else if e == 't' {
            seq!['\t'] + r_read(t.skip(2))
        } else if (e == 'u' || e == 'U') && t.len() >= 3 && t[2] == '{' && 3 <= close_brace(t, 3) < t.len() {
            let k = close_brace(t, 3);
            seq![(hex_value(t.subrange(3, k)) as int) as char] + r_read(t.skip(k + 1))
        } else {
            seq![t[0]] + r_read(t.skip(1))
        }
    } else {
        seq![t[0]] + r_read(t.skip(1))
    }
}

proof fn lemma_hex_digit_value(d: int)
    requires
        0 <= d < 16,
    ensures
        hex_digit_value(hex_digit(d)) == d,
{
    if d < 10 {
        assert(((d + 48) as char) as int == d + 48);
    } else {
        assert(((d + 87) as char) as int == d + 87);
    }
}

proof fn lemma_hex_value(n: nat)
    ensures
        hex_value(hex(n)) == n,
    decreases n,
{
    if n < 16 {
        let d = seq![hex_digit(n as int)];
        assert(d.drop_last() =~= Seq::<char>::empty());
        lemma_hex_digit_value(n as int);
        assert(hex(n) == d);
        assert(hex_value(d) == hex_value(d.drop_last()) * 16 + hex_digit_value(d.last()));
    } else {
        lemma_hex_value(n / 16);
        let h = hex(n);
        assert(h.drop_last() =~= hex(n / 16));
        lemma_hex_digit_value((n % 16) as int);
        assert(hex_digit_value(h.last()) == n % 16);
        assert(n == (n / 16) * 16 + n % 16) by (nonlinear_arith);
    }
}

proof fn lemma_hex_no_brace(n: nat)
    ensures
        forall|i: int| 0 <= i < hex(n).len() ==> #[trigger] hex(n)[i] != '}',
        hex(n).len() > 0,
{
    lemma_hex_digits(n);
}

proof fn lemma_close_brace_after(t: Seq<char>, i: int, j: int)
    requires
        0 <= i <= j < t.len(),
        t[j] == '}',
        forall|q: int| i <= q < j ==> #[trigger] t[q] != '}',
    ensures
        close_brace(t, i) == j,
    decreases j - i,
{
    if i < j {
        lemma_close_brace_after(t, i + 1, j);
    }
}

proof fn lemma_read_escaped_char(c: char, t: Seq<char>)
    ensures
        r_read(r_escape_char(c) + t) == seq![c] + r_read(t),
{
    let e = r_escape_char(c);
    let u = e + t;
    if c == '\\' || c == '"' || c == '\n' || c == '\r' || c == '\t' {
        assert(u.skip(2) =~= t);
    } else if ' ' <= c && c <= '~' {
        assert(u.skip(1) =~= t);
    } else {
        let n = c as nat;
        let h = hex(n);
        lemma_hex_no_brace(n);
        lemma_hex_value(n);
        let k: int = 3int + h.len();
        assert(u[k] == '}');
        assert forall|q: int| 3 <= q < k implies #[trigger] u[q] != '}' by {
            assert(u[q] == h[q - 3]);
        }
        lemma_close_brace_after(u, 3, k);
        assert(u.subrange(3, k) =~= h);
        assert(u.skip(k + 1) =~= t);
        assert(((n as int) as char) == c);
    }
}

proof fn lemma_r_escape_front(s: Seq<char>)
    requires
        s.len() > 0,
    ensures
        r_escape(s) == r_escape_char(s[0]) + r_escape(s.drop_first()),
    decreases s.len(),
{
    if s.len() == 1 {
        assert(s.drop_last() =~= Seq::<char>::empty());
        assert(s.drop_first() =~= Seq::<char>::empty());
        assert(r_escape(s.drop_last()) =~= Seq::<char>::empty());
        assert(s.last() == s[0]);
        assert(r_escape(s) =~= r_escape_char(s[0]));
        assert(r_escape_char(s[0]) + Seq::<char>::empty() =~= r_escape_char(s[0]));
    } else {
        lemma_r_escape_front(s.drop_last());
        assert(s.drop_last().drop_first() =~= s.drop_first().drop_last());
        assert(s.drop_first().last() == s.last());
        assert(r_escape(s) =~= r_escape_char(s[0]) + r_escape(s.drop_first()));
    }
}

/// R reads an escaped string back as the string itself: the literal
/// `"<r_escape(s)>"` in the generated R code holds exactly `s`.
pub proof fn lemma_r_escape_reads_back(s: Seq<char>)
    ensures
        r_read(r_escape(s)) == s,
    decreases s.len(),
{
    if s.len() > 0 {
        lemma_r_escape_front(s);
        lemma_read_escaped_char(s[0], r_escape(s.drop_first()));
        lemma_r_escape_reads_back(s.drop_first());
        assert(seq![s[0]] + s.drop_first() =~= s);
    } else {
        assert(r_escape(s) =~= Seq::<char>::empty());
    }
}

/// Plain printable text (ASCII from `' '` to `'~'`, without `\` and `"`)
/// is left as it is.
pub proof fn lemma_r_escape_plain_unchanged(s: Seq<char>)
    requires
        forall|i: int| 0 <= i < s.len() ==> ' ' <= #[trigger] s[i] <= '~' && s[i] != '\\' && s[i] != '"',
    ensures
        r_escape(s) == s,
    decreases s.len(),
{
    if s.len() > 0 {
        let d = s.drop_last();
        assert forall|i: int| 0 <= i < d.len() implies ' ' <= #[trigger] d[i] <= '~' && d[i] != '\\' && d[i] != '"' by {
            assert(d[i] == s[i]);
        }
        lemma_r_escape_plain_unchanged(d);
        assert(s.last() == s[s.len() - 1]);
        assert(d + seq![s.last()] =~= s);
    }
}

/// The named checks of the first `n` parameters.
pub open spec fn named_checks(inputs: Seq<Param>, opts: PreconditionOptions, n: int) -> Seq<AssertionView>
    decreases n,
{
    if n <= 0 {
        Seq::empty()
    } else {
        named_checks(inputs, opts, n - 1) + match inputs[n - 1] {
            Param::Typed { name: Some(m), ty } => match explicit_for(opts.explicit@, r_arg_name(m@)) {
                Some(e) => explicit_assertions(e, r_arg_name(m@), ty),
                None => Seq::empty(),
            },
            _ => Seq::empty(),
        }
    }
}

/// Under `no_preconditions` / `fast` the type-derived checks are dropped and
/// the checks the author named are all that is left: the Rust conversion
/// cannot check them, so they are never dropped.
pub proof fn lemma_named_checks_survive(inputs: Seq<Param>, skip: Seq<Seq<char>>, opts: PreconditionOptions, n: int)
    requires
        opts.no_type_checks,
    ensures
        signature_checks(inputs, skip, opts, n) == named_checks(inputs, opts, n),
    decreases n,
{
    if n > 0 {
        lemma_named_checks_survive(inputs, skip, opts, n - 1);
        match inputs[n - 1] {
            Param::Typed { name: Some(m), ty } => {
                assert(param_checks(inputs[n - 1], skip, opts) =~= Seq::<AssertionView>::empty() + match explicit_for(
                    opts.explicit@,
                    r_arg_name(m@),
                ) {
                    Some(e) => explicit_assertions(e, r_arg_name(m@), ty),
                    None => Seq::empty(),
                });
            },
            _ => {},
        }
    }
}

/// A named check lets an absent value through before its own test: a
/// `NULL` for an `Option<T>` parameter, an omitted argument for a
/// `Missing<T>` one.
pub proof fn lemma_named_checks_pass_absent(e: ExplicitChecks, param: Seq<char>, ty: TypeModel)
    ensures
        forall|i: int|
            0 <= i < explicit_assertions(e, param, ty).len() ==> {
                let c = (#[trigger] explicit_assertions(e, param, ty)[i]).condition;
                &&& is_missing(ty) ==> starts_with(c, "missing("@ + param + ") || "@)
                &&& !is_missing(ty) && option_inner(ty) is Some ==> starts_with(c, "is.null("@ + param + ") || "@)
            },
{
    let pre = pass_prefix(param, ty);
    let v = explicit_assertions(e, param, ty);
    assert forall|i: int| 0 <= i < v.len() implies #[trigger] v[i].condition.take(pre.len() as int) == pre by {
        let c = v[i].condition;
        assert(c.take(pre.len() as int) =~= pre);
    }
}

/// The type names the check tables tell apart are distinct.
proof fn lemma_type_names_differ()
    ensures
        "bool"@ != "f64"@,
        "bool"@ != "f32"@,
        "bool"@ != "i32"@,
        "bool"@ != "i8"@,
        "bool"@ != "i16"@,
        "bool"@ != "u16"@,
        "bool"@ != "u32"@,
        "bool"@ != "i64"@,
        "bool"@ != "u64"@,
        "bool"@ != "isize"@,
        "bool"@ != "usize"@,
        "String"@ != "f64"@,
        "String"@ != "f32"@,
        "String"@ != "i32"@,
        "String"@ != "i8"@,
        "String"@ != "i16"@,
        "String"@ != "u16"@,
        "String"@ != "u32"@,
        "String"@ != "i64"@,
        "String"@ != "u64"@,
        "String"@ != "isize"@,
        "String"@ != "usize"@,
        "String"@ != "bool"@,
        "u8"@ != "f64"@,
        "u8"@ != "f32"@,
        "u8"@ != "i32"@,
        "u8"@ != "i8"@,
        "u8"@ != "i16"@,
        "u8"@ != "u16"@,
        "u8"@ != "u32"@,
        "u8"@ != "i64"@,
        "u8"@ != "u64"@,
        "u8"@ != "isize"@,
        "u8"@ != "usize"@,
        "u8"@ != "bool"@,
        "u8"@ != "String"@,
        "Rcomplex"@ != "f64"@,
        "Rcomplex"@ != "f32"@,
        "Rcomplex"@ != "i32"@,
        "Rcomplex"@ != "i8"@,
        "Rcomplex"@ != "i16"@,
        "Rcomplex"@ != "u16"@,
        "Rcomplex"@ != "u32"@,
        "Rcomplex"@ != "i64"@,
        "Rcomplex"@ != "u64"@,
        "Rcomplex"@ != "isize"@,
        "Rcomplex"@ != "usize"@,
        "Rcomplex"@ != "bool"@,
        "Rcomplex"@ != "String"@,
        "Rcomplex"@ != "u8"@,
        "f64"@ != "i32"@,
        "f32"@ != "i32"@,
        "f32"@ != "f64"@,
        "i8"@ != "i32"@,
        "i8"@ != "f64"@,
        "i8"@ != "f32"@,
        "i16"@ != "i32"@,
        "i16"@ != "f64"@,
        "i16"@ != "f32"@,
        "i16"@ != "i8"@,
        "i64"@ != "i32"@,
        "i64"@ != "f64"@,
        "i64"@ != "f32"@,
        "i64"@ != "i8"@,
        "i64"@ != "i16"@,
        "isize"@ != "i32"@,
        "isize"@ != "f64"@,
        "isize"@ != "f32"@,
        "isize"@ != "i8"@,
        "isize"@ != "i16"@,
        "isize"@ != "i64"@,
        "u16"@ != "i32"@,
        "u16"@ != "f64"@,
        "u16"@ != "f32"@,
        "u16"@ != "i8"@,
        "u16"@ != "i16"@,
        "u16"@ != "i64"@,
        "u16"@ != "isize"@,
        "u32"@ != "i32"@,
        "u32"@ != "f64"@,
        "u32"@ != "f32"@,
        "u32"@ != "i8"@,
        "u32"@ != "i16"@,
        "u32"@ != "i64"@,
        "u32"@ != "isize"@,
        "u32"@ != "u16"@,
        "u64"@ != "i32"@,
        "u64"@ != "f64"@,
        "u64"@ != "f32"@,
        "u64"@ != "i8"@,
        "u64"@ != "i16"@,
        "u64"@ != "i64"@,
        "u64"@ != "isize"@,
        "u64"@ != "u16"@,
        "u64"@ != "u32"@,
        "usize"@ != "i32"@,
        "usize"@ != "f64"@,
        "usize"@ != "f32"@,
        "usize"@ != "i8"@,
        "usize"@ != "i16"@,
        "usize"@ != "i64"@,
        "usize"@ != "isize"@,
        "usize"@ != "u16"@,
        "usize"@ != "u32"@,
        "usize"@ != "u64"@,
        "Rbool"@ != "i32"@,
        "Rbool"@ != "f64"@,
        "Rbool"@ != "f32"@,
        "Rbool"@ != "i8"@,
        "Rbool"@ != "i16"@,
        "Rbool"@ != "i64"@,
        "Rbool"@ != "isize"@,
        "Rbool"@ != "u16"@,
        "Rbool"@ != "u32"@,
        "Rbool"@ != "u64"@,
        "Rbool"@ != "usize"@,
        "Rbool"@ != "bool"@,
        "Rboolean"@ != "i32"@,
        "Rboolean"@ != "f64"@,
        "Rboolean"@ != "f32"@,
        "Rboolean"@ != "i8"@,
        "Rboolean"@ != "i16"@,
        "Rboolean"@ != "i64"@,
        "Rboolean"@ != "isize"@,
        "Rboolean"@ != "u16"@,
        "Rboolean"@ != "u32"@,
        "Rboolean"@ != "u64"@,
        "Rboolean"@ != "usize"@,
        "Rboolean"@ != "bool"@,
        "Rboolean"@ != "Rbool"@,
        "String"@ != "Rbool"@,
        "String"@ != "Rboolean"@,
        "char"@ != "i32"@,
        "char"@ != "f64"@,
        "char"@ != "f32"@,
        "char"@ != "i8"@,
        "char"@ != "i16"@,
        "char"@ != "i64"@,
        "char"@ != "isize"@,
        "char"@ != "u16"@,
        "char"@ != "u32"@,
        "char"@ != "u64"@,
        "char"@ != "usize"@,
        "char"@ != "bool"@,
        "char"@ != "Rbool"@,
        "char"@ != "Rboolean"@,
        "char"@ != "String"@,
        "PathBuf"@ != "i32"@,
        "PathBuf"@ != "f64"@,
        "PathBuf"@ != "f32"@,
        "PathBuf"@ != "i8"@,
        "PathBuf"@ != "i16"@,
        "PathBuf"@ != "i64"@,
        "PathBuf"@ != "isize"@,
        "PathBuf"@ != "u16"@,
        "PathBuf"@ != "u32"@,
        "PathBuf"@ != "u64"@,
        "PathBuf"@ != "usize"@,
        "PathBuf"@ != "bool"@,
        "PathBuf"@ != "Rbool"@,
        "PathBuf"@ != "Rboolean"@,
        "PathBuf"@ != "String"@,
        "PathBuf"@ != "char"@,
        "u8"@ != "Rbool"@,
        "u8"@ != "Rboolean"@,
        "u8"@ != "char"@,
        "u8"@ != "PathBuf"@,
        "Rcomplex"@ != "Rbool"@,
        "Rcomplex"@ != "Rboolean"@,
        "Rcomplex"@ != "char"@,
        "Rcomplex"@ != "PathBuf"@,
        "Vec"@ != "i32"@,
        "Vec"@ != "f64"@,
        "Vec"@ != "f32"@,
        "Vec"@ != "i8"@,
        "Vec"@ != "i16"@,
        "Vec"@ != "i64"@,
        "Vec"@ != "isize"@,
        "Vec"@ != "u16"@,
        "Vec"@ != "u32"@,
        "Vec"@ != "u64"@,
        "Vec"@ != "usize"@,
        "Vec"@ != "bool"@,
        "Vec"@ != "Rbool"@,
        "Vec"@ != "Rboolean"@,
        "Vec"@ != "String"@,
        "Vec"@ != "char"@,
        "Vec"@ != "PathBuf"@,
        "Vec"@ != "u8"@,
        "Vec"@ != "Rcomplex"@,
        "Vec"@ != "AsNumeric"@,
        "Vec"@ != "AsNumericVec"@,
        "Vec"@ != "AsCharacter"@,
        "Vec"@ != "AsCharacterVec"@,
        "Vec"@ != "Option"@,
{
    reveal_strlit("AsCharacter");
    reveal_strlit("AsCharacterVec");
    reveal_strlit("AsNumeric");
    reveal_strlit("AsNumericVec");
    reveal_strlit("Option");
    reveal_strlit("PathBuf");
    reveal_strlit("Rbool");
    reveal_strlit("Rboolean");
    reveal_strlit("Rcomplex");
    reveal_strlit("String");
    reveal_strlit("Vec");
    reveal_strlit("bool");
    reveal_strlit("char");
    reveal_strlit("f32");
    reveal_strlit("f64");
    reveal_strlit("i16");
    reveal_strlit("i32");
    reveal_strlit("i64");
    reveal_strlit("i8");
    reveal_strlit("isize");
    reveal_strlit("u16");
    reveal_strlit("u32");
    reveal_strlit("u64");
    reveal_strlit("u8");
    reveal_strlit("usize");
    assert("bool"@.len() != "f64"@.len());
    assert("bool"@.len() != "f32"@.len());
    assert("bool"@.len() != "i32"@.len());
    assert("bool"@.len() != "i8"@.len());
    assert("bool"@.len() != "i16"@.len());
    assert("bool"@.len() != "u16"@.len());
    assert("bool"@.len() != "u32"@.len());
    assert("bool"@.len() != "i64"@.len());
    assert("bool"@.len() != "u64"@.len());
    assert("bool"@.len() != "isize"@.len());
    assert("bool"@.len() != "usize"@.len());
    assert("String"@.len() != "f64"@.len());
    assert("String"@.len() != "f32"@.len());
    assert("String"@.len() != "i32"@.len());
    assert("String"@.len() != "i8"@.len());
    assert("String"@.len() != "i16"@.len());
    assert("String"@.len() != "u16"@.len());
    assert("String"@.len() != "u32"@.len());
    assert("String"@.len() != "i64"@.len());
    assert("String"@.len() != "u64"@.len());
    assert("String"@.len() != "isize"@.len());
    assert("String"@.len() != "usize"@.len());
    assert("String"@.len() != "bool"@.len());
    assert("u8"@.len() != "f64"@.len());
    assert("u8"@.len() != "f32"@.len());
    assert("u8"@.len() != "i32"@.len());
    assert("u8"@[0] != "i8"@[0]);
    assert("u8"@.len() != "i16"@.len());
    assert("u8"@.len() != "u16"@.len());
    assert("u8"@.len() != "u32"@.len());
    assert("u8"@.len() != "i64"@.len());
    assert("u8"@.len() != "u64"@.len());
    assert("u8"@.len() != "isize"@.len());
    assert("u8"@.len() != "usize"@.len());
    assert("u8"@.len() != "bool"@.len());
    assert("u8"@.len() != "String"@.len());
    assert("Rcomplex"@.len() != "f64"@.len());
    assert("Rcomplex"@.len() != "f32"@.len());
    assert("Rcomplex"@.len() != "i32"@.len());
    assert("Rcomplex"@.len() != "i8"@.len());
    assert("Rcomplex"@.len() != "i16"@.len());
    assert("Rcomplex"@.len() != "u16"@.len());
    assert("Rcomplex"@.len() != "u32"@.len());
    assert("Rcomplex"@.len() != "i64"@.len());
    assert("Rcomplex"@.len() != "u64"@.len());
    assert("Rcomplex"@.len() != "isize"@.len());
    assert("Rcomplex"@.len() != "usize"@.len());
    assert("Rcomplex"@.len() != "bool"@.len());
    assert("Rcomplex"@.len() != "String"@.len());
    assert("Rcomplex"@.len() != "u8"@.len());
    assert("f64"@[0] != "i32"@[0]);
    assert("f32"@[0] != "i32"@[0]);
    assert("f32"@[1] != "f64"@[1]);
    assert("i8"@.len() != "i32"@.len());
    assert("i8"@.len() != "f64"@.len());
    assert("i8"@.len() != "f32"@.len());
    assert("i16"@[1] != "i32"@[1]);
    assert("i16"@[0] != "f64"@[0]);
    assert("i16"@[0] != "f32"@[0]);
    assert("i16"@.len() != "i8"@.len());
    assert("i64"@[1] != "i32"@[1]);
    assert("i64"@[0] != "f64"@[0]);
    assert("i64"@[0] != "f32"@[0]);
    assert("i64"@.len() != "i8"@.len());
    assert("i64"@[1] != "i16"@[1]);
    assert("isize"@.len() != "i32"@.len());
    assert("isize"@.len() != "f64"@.len());
    assert("isize"@.len() != "f32"@.len());
    assert("isize"@.len() != "i8"@.len());
    assert("isize"@.len() != "i16"@.len());
    assert("isize"@.len() != "i64"@.len());
    assert("u16"@[0] != "i32"@[0]);
    assert("u16"@[0] != "f64"@[0]);
    assert("u16"@[0] != "f32"@[0]);
    assert("u16"@.len() != "i8"@.len());
    assert("u16"@[0] != "i16"@[0]);
    assert("u16"@[0] != "i64"@[0]);
    assert("u16"@.len() != "isize"@.len());
    assert("u32"@[0] != "i32"@[0]);
    assert("u32"@[0] != "f64"@[0]);
    assert("u32"@[0] != "f32"@[0]);
    assert("u32"@.len() != "i8"@.len());
    assert("u32"@[0] != "i16"@[0]);
    assert("u32"@[0] != "i64"@[0]);
    assert("u32"@.len() != "isize"@.len());
    assert("u32"@[1] != "u16"@[1]);
    assert("u64"@[0] != "i32"@[0]);
    assert("u64"@[0] != "f64"@[0]);
    assert("u64"@[0] != "f32"@[0]);
    assert("u64"@.len() != "i8"@.len());
    assert("u64"@[0] != "i16"@[0]);
    assert("u64"@[0] != "i64"@[0]);
    assert("u64"@.len() != "isize"@.len());
    assert("u64"@[1] != "u16"@[1]);
    assert("u64"@[1] != "u32"@[1]);
    assert("usize"@.len() != "i32"@.len());
    assert("usize"@.len() != "f64"@.len());
    assert("usize"@.len() != "f32"@.len());
    assert("usize"@.len() != "i8"@.len());
    assert("usize"@.len() != "i16"@.len());
    assert("usize"@.len() != "i64"@.len());
    assert("usize"@[0] != "isize"@[0]);
    assert("usize"@.len() != "u16"@.len());
    assert("usize"@.len() != "u32"@.len());
    assert("usize"@.len() != "u64"@.len());
    assert("Rbool"@.len() != "i32"@.len());
    assert("Rbool"@.len() != "f64"@.len());
    assert("Rbool"@.len() != "f32"@.len());
    assert("Rbool"@.len() != "i8"@.len());
    assert("Rbool"@.len() != "i16"@.len());
    assert("Rbool"@.len() != "i64"@.len());
    assert("Rbool"@[0] != "isize"@[0]);
    assert("Rbool"@.len() != "u16"@.len());
    assert("Rbool"@.len() != "u32"@.len());
    assert("Rbool"@.len() != "u64"@.len());
    assert("Rbool"@[0] != "usize"@[0]);
    assert("Rbool"@.len() != "bool"@.len());
    assert("Rboolean"@.len() != "i32"@.len());
    assert("Rboolean"@.len() != "f64"@.len());
    assert("Rboolean"@.len() != "f32"@.len());
    assert("Rboolean"@.len() != "i8"@.len());
    assert("Rboolean"@.len() != "i16"@.len());
    assert("Rboolean"@.len() != "i64"@.len());
    assert("Rboolean"@.len() != "isize"@.len());
    assert("Rboolean"@.len() != "u16"@.len());
    assert("Rboolean"@.len() != "u32"@.len());
    assert("Rboolean"@.len() != "u64"@.len());
    assert("Rboolean"@.len() != "usize"@.len());
    assert("Rboolean"@.len() != "bool"@.len());
    assert("Rboolean"@.len() != "Rbool"@.len());
    assert("String"@.len() != "Rbool"@.len());
    assert("String"@.len() != "Rboolean"@.len());
    assert("char"@.len() != "i32"@.len());
    assert("char"@.len() != "f64"@.len());
    assert("char"@.len() != "f32"@.len());
    assert("char"@.len() != "i8"@.len());
    assert("char"@.len() != "i16"@.len());
    assert("char"@.len() != "i64"@.len());
    assert("char"@.len() != "isize"@.len());
    assert("char"@.len() != "u16"@.len());
    assert("char"@.len() != "u32"@.len());
    assert("char"@.len() != "u64"@.len());
    assert("char"@.len() != "usize"@.len());
    assert("char"@[0] != "bool"@[0]);
    assert("char"@.len() != "Rbool"@.len());
    assert("char"@.len() != "Rboolean"@.len());
    assert("char"@.len() != "String"@.len());
    assert("PathBuf"@.len() != "i32"@.len());
    assert("PathBuf"@.len() != "f64"@.len());
    assert("PathBuf"@.len() != "f32"@.len());
    assert("PathBuf"@.len() != "i8"@.len());
    assert("PathBuf"@.len() != "i16"@.len());
    assert("PathBuf"@.len() != "i64"@.len());
    assert("PathBuf"@.len() != "isize"@.len());
    assert("PathBuf"@.len() != "u16"@.len());
    assert("PathBuf"@.len() != "u32"@.len());
    assert("PathBuf"@.len() != "u64"@.len());
    assert("PathBuf"@.len() != "usize"@.len());
    assert("PathBuf"@.len() != "bool"@.len());
    assert("PathBuf"@.len() != "Rbool"@.len());
    assert("PathBuf"@.len() != "Rboolean"@.len());
    assert("PathBuf"@.len() != "String"@.len());
    assert("PathBuf"@.len() != "char"@.len());
    assert("u8"@.len() != "Rbool"@.len());
    assert("u8"@.len() != "Rboolean"@.len());
    assert("u8"@.len() != "char"@.len());
    assert("u8"@.len() != "PathBuf"@.len());
    assert("Rcomplex"@.len() != "Rbool"@.len());
    assert("Rcomplex"@[1] != "Rboolean"@[1]);
    assert("Rcomplex"@.len() != "char"@.len());
    assert("Rcomplex"@.len() != "PathBuf"@.len());
    assert("Vec"@[0] != "i32"@[0]);
    assert("Vec"@[0] != "f64"@[0]);
    assert("Vec"@[0] != "f32"@[0]);
    assert("Vec"@.len() != "i8"@.len());
    assert("Vec"@[0] != "i16"@[0]);
    assert("Vec"@[0] != "i64"@[0]);
    assert("Vec"@.len() != "isize"@.len());
    assert("Vec"@[0] != "u16"@[0]);
    assert("Vec"@[0] != "u32"@[0]);
    assert("Vec"@[0] != "u64"@[0]);
    assert("Vec"@.len() != "usize"@.len());
    assert("Vec"@.len() != "bool"@.len());
    assert("Vec"@.len() != "Rbool"@.len());
    assert("Vec"@.len() != "Rboolean"@.len());
    assert("Vec"@.len() != "String"@.len());
    assert("Vec"@.len() != "char"@.len());
    assert("Vec"@.len() != "PathBuf"@.len());
    assert("Vec"@.len() != "u8"@.len());
    assert("Vec"@.len() != "Rcomplex"@.len());
    assert("Vec"@.len() != "AsNumeric"@.len());
    assert("Vec"@.len() != "AsNumericVec"@.len());
    assert("Vec"@.len() != "AsCharacter"@.len());
    assert("Vec"@.len() != "AsCharacterVec"@.len());
    assert("Vec"@.len() != "Option"@.len());
}


/// A `Vec<T>` (any path to it) or a `&[T]` / `&mut [T]` whose element type
/// is a path ending in `elem`.
pub open spec fn is_vector_of(ty: TypeModel, elem: Seq<char>) -> bool {
    match ty {
        TypeModel::Path(_) => match last_segment(ty) {
            Some(seg) => seg.ident@ == "Vec"@ && match leading_type_arg(seg) {
                Some(e) => last_ident(e) == Some(elem),
                None => false,
            },
            None => false,
        },
        TypeModel::Reference(_, inner) => match *inner {
            TypeModel::Slice(e) => last_ident(*e) == Some(elem),
            _ => false,
        },
        _ => false,
    }
}

/// The checks of a checked, uncoerced parameter without named checks are
/// the checks of its type.
proof fn lemma_plain_param_checks(n: String, ty: TypeModel, skip: Seq<Seq<char>>, opts: PreconditionOptions, c: RTypeCheck)
    requires
        r_check(ty) == Some(c),
        type_checked(r_arg_name(n@), skip, opts),
        !coerced(opts, r_arg_name(n@)),
        explicit_for(opts.explicit@, r_arg_name(n@)) is None,
    ensures
        param_checks(Param::Typed { name: Some(n), ty }, skip, opts) == check_assertions(c, r_arg_name(n@)),
{
    assert(param_checks(Param::Typed { name: Some(n), ty }, skip, opts) =~= check_assertions(c, r_arg_name(n@))
        + Seq::empty());
}

/// The `is.<storage>(p)` check of a storage type, and its requirement.
proof fn lemma_storage_text(t: RType, storage: Seq<char>, p: Seq<char>)
    requires
        rtype_name(t) == storage,
    ensures
        mk(p, "must be "@ + rtype_name(t), is_type_pred(t, p)) == (AssertionView {
            param: p,
            requirement: "must be "@ + storage,
            condition: "is."@ + storage + "("@ + p + ")"@,
            message: None,
        }),
{
}

/// A vector whose element is `bool`, `f64`, `String`, `u8` or `Rcomplex`
/// is an R vector of storage type `logical`, `double`, `character`, `raw`
/// or `complex`: a checked, uncoerced parameter of such a type gets exactly
/// one assertion, `'<p>' must be <storage>`, whose condition is
/// `is.<storage>(<p>)`.
pub proof fn lemma_vector_storage_checks(
    n: String,
    ty: TypeModel,
    elem: Seq<char>,
    storage: Seq<char>,
    skip: Seq<Seq<char>>,
    opts: PreconditionOptions,
)
    requires
        is_vector_of(ty, elem),
        (elem == "bool"@ && storage == "logical"@) || (elem == "f64"@ && storage == "double"@) || (elem == "String"@
            && storage == "character"@) || (elem == "u8"@ && storage == "raw"@) || (elem == "Rcomplex"@ && storage
            == "complex"@),
        type_checked(r_arg_name(n@), skip, opts),
        !coerced(opts, r_arg_name(n@)),
        explicit_for(opts.explicit@, r_arg_name(n@)) is None,
    ensures
        param_checks(Param::Typed { name: Some(n), ty }, skip, opts) == seq![
            AssertionView {
                param: r_arg_name(n@),
                requirement: "must be "@ + storage,
                condition: "is."@ + storage + "("@ + r_arg_name(n@) + ")"@,
                message: None,
            },
        ],
{
    lemma_type_names_differ();
    let t = if elem == "bool"@ {
        RType::Logical
    } else if elem == "f64"@ {
        RType::Double
    } else if elem == "String"@ {
        RType::Character
    } else if elem == "u8"@ {
        RType::Raw
    } else {
        RType::Complex
    };
    match ty {
        TypeModel::Path(segs) => {
            let seg = segs@[segs@.len() - 1];
            let e = leading_type_arg(seg)->Some_0;
            assert(r_check_vec_elem(e) == Some(RTypeCheck::Vector(t)));
            assert(r_check(ty) == Some(RTypeCheck::Vector(t)));
        },
        TypeModel::Reference(_, inner) => {
            let e = (*inner)->Slice_0;
            assert(r_check_vec_elem(*e) == Some(RTypeCheck::Vector(t)));
            assert(r_check_ref(*inner) == Some(RTypeCheck::Vector(t)));
        },
        _ => {},
    }
    lemma_plain_param_checks(n, ty, skip, opts, RTypeCheck::Vector(t));
    lemma_storage_text(t, storage, r_arg_name(n@));
}

/// A vector of `bool` is an R logical vector: a checked parameter of such a
/// type gets exactly one assertion, `'<p>' must be logical`, whose condition
/// is `is.logical(<p>)`. Coerced, a `Vec<bool>` lets integers through as
/// well: `is.logical(<p>) || is.integer(<p>)`.
pub proof fn lemma_bool_vector_is_logical(n: String, ty: TypeModel, skip: Seq<Seq<char>>, opts: PreconditionOptions)
    requires
        is_vector_of(ty, "bool"@),
        type_checked(r_arg_name(n@), skip, opts),
        explicit_for(opts.explicit@, r_arg_name(n@)) is None,
    ensures
        !coerced(opts, r_arg_name(n@)) ==> param_checks(Param::Typed { name: Some(n), ty }, skip, opts) == seq![
            AssertionView {
                param: r_arg_name(n@),
                requirement: "must be logical"@,
                condition: "is.logical("@ + r_arg_name(n@) + ")"@,
                message: None,
            },
        ],
        coerced(opts, r_arg_name(n@)) && ty is Path ==> param_checks(Param::Typed { name: Some(n), ty }, skip, opts)
            == seq![
            AssertionView {
                param: r_arg_name(n@),
                requirement: "must be logical or integer"@,
                condition: "is.logical("@ + r_arg_name(n@) + ") || is.integer("@ + r_arg_name(n@) + ")"@,
                message: None,
            },
        ],
{
    let r = r_arg_name(n@);
    reveal_strlit("must be ");
    reveal_strlit("logical");
    reveal_strlit("must be logical");
    reveal_strlit("is.");
    reveal_strlit("(");
    reveal_strlit("is.logical(");
    assert("must be "@ + "logical"@ =~= "must be logical"@);
    assert("is."@ + "logical"@ + "("@ + r + ")"@ =~= "is.logical("@ + r + ")"@);
    if !coerced(opts, r) {
        lemma_vector_storage_checks(n, ty, "bool"@, "logical"@, skip, opts);
    } else if ty is Path {
        lemma_type_names_differ();
        let segs = ty->Path_0;
        let seg = segs@[segs@.len() - 1];
        let e = leading_type_arg(seg)->Some_0;
        assert(r_check_vec_elem(e) == Some(RTypeCheck::Vector(RType::Logical)));
        assert(r_check(ty) == Some(RTypeCheck::Vector(RType::Logical)));
        assert(coercion_of(ty) == Some(CoercionMapping::BoolVec));
        assert(param_checks(Param::Typed { name: Some(n), ty }, skip, opts) =~= check_assertions(
            RTypeCheck::VectorLogicalOrInteger,
            r,
        ) + Seq::empty());
    }
}

/// A scalar `i32`, `f64`, `bool` (`Rbool`, `Rboolean`), `String` (`char`,
/// `PathBuf`), `u8` or `Rcomplex` is an R value of storage type `integer`,
/// `double`, `logical`, `character`, `raw` or `complex`: a checked,
/// uncoerced parameter of such a type gets two assertions,
/// `is.<storage>(<p>)` and `length(<p>) == 1L`.
pub proof fn lemma_scalar_storage_checks(
    n: String,
    ty: TypeModel,
    id: Seq<char>,
    storage: Seq<char>,
    skip: Seq<Seq<char>>,
    opts: PreconditionOptions,
)
    requires
        ty is Path,
        last_ident(ty) == Some(id),
        (id == "i32"@ && storage == "integer"@) || (id == "f64"@ && storage == "double"@) || ((id == "bool"@ || id
            == "Rbool"@ || id == "Rboolean"@) && storage == "logical"@) || ((id == "String"@ || id == "char"@ || id
            == "PathBuf"@) && storage == "character"@) || (id == "u8"@ && storage == "raw"@) || (id == "Rcomplex"@
            && storage == "complex"@),
        type_checked(r_arg_name(n@), skip, opts),
        !coerced(opts, r_arg_name(n@)),
        explicit_for(opts.explicit@, r_arg_name(n@)) is None,
    ensures
        param_checks(Param::Typed { name: Some(n), ty }, skip, opts) == seq![
            AssertionView {
                param: r_arg_name(n@),
                requirement: "must be "@ + storage,
                condition: "is."@ + storage + "("@ + r_arg_name(n@) + ")"@,
                message: None,
            },
            AssertionView {
                param: r_arg_name(n@),
                requirement: "must have length 1"@,
                condition: "length("@ + r_arg_name(n@) + ") == 1L"@,
                message: None,
            },
        ],
{
    lemma_type_names_differ();
    let t = if id == "i32"@ {
        RType::Integer
    } else if id == "f64"@ {
        RType::Double
    } else if id == "bool"@ || id == "Rbool"@ || id == "Rboolean"@ {
        RType::Logical
    } else if id == "String"@ || id == "char"@ || id == "PathBuf"@ {
        RType::Character
    } else if id == "u8"@ {
        RType::Raw
    } else {
        RType::Complex
    };
    assert(r_check(ty) == Some(RTypeCheck::Scalar(t)));
    lemma_plain_param_checks(n, ty, skip, opts, RTypeCheck::Scalar(t));
    lemma_storage_text(t, storage, r_arg_name(n@));
}

/// A scalar `f32`, `i8`, `i16`, `i64` or `isize` takes any single number:
/// a checked, uncoerced parameter of such a type must be numeric, logical
/// or raw and have length 1; an unsigned `u16`, `u32`, `u64` or `usize`
/// must besides be non-negative.
pub proof fn lemma_scalar_number_checks(n: String, ty: TypeModel, id: Seq<char>, skip: Seq<Seq<char>>, opts: PreconditionOptions)
    requires
        ty is Path,
        last_ident(ty) == Some(id),
        id == "f32"@ || id == "i8"@ || id == "i16"@ || id == "i64"@ || id == "isize"@ || id == "u16"@ || id == "u32"@
            || id == "u64"@ || id == "usize"@,
        type_checked(r_arg_name(n@), skip, opts),
        !coerced(opts, r_arg_name(n@)),
        explicit_for(opts.explicit@, r_arg_name(n@)) is None,
    ensures
        ({
            let p = r_arg_name(n@);
            let number = AssertionView {
                param: p,
                requirement: "must be numeric, logical, or raw"@,
                condition: "is.numeric("@ + p + ") || is.logical("@ + p + ") || is.raw("@ + p + ")"@,
                message: None,
            };
            let single = AssertionView {
                param: p,
                requirement: "must have length 1"@,
                condition: "length("@ + p + ") == 1L"@,
                message: None,
            };
            let non_negative = AssertionView {
                param: p,
                requirement: "must be non-negative"@,
                condition: "is.raw("@ + p + ") || "@ + p + " >= 0"@,
                message: None,
            };
            param_checks(Param::Typed { name: Some(n), ty }, skip, opts) == if id == "u16"@ || id == "u32"@ || id
                == "u64"@ || id == "usize"@ {
                seq![number, single, non_negative]
            } else {
                seq![number, single]
            }
        }),
{
    lemma_type_names_differ();
    let c = if id == "u16"@ || id == "u32"@ || id == "u64"@ || id == "usize"@ {
        RTypeCheck::ScalarNonNeg
    } else {
        RTypeCheck::ScalarNumeric
    };
    assert(r_check(ty) == Some(c));
    lemma_plain_param_checks(n, ty, skip, opts, c);
}

/// Coercion widens the checks of `bool`, `i32` and `f64` to what their
/// coercing conversions accept: a coerced `bool` may be logical or integer,
/// a coerced `i32` integer or whole-number numeric, a coerced `f64` any
/// number; a scalar still needs length 1, and a `Vec` of them takes the
/// same test without it.
pub proof fn lemma_coerced_checks(n: String, ty: TypeModel, id: Seq<char>, skip: Seq<Seq<char>>, opts: PreconditionOptions)
    requires
        ty is Path,
        last_ident(ty) == Some(id) || is_vector_of(ty, id),
        id == "bool"@ || id == "i32"@ || id == "f64"@,
        type_checked(r_arg_name(n@), skip, opts),
        coerced(opts, r_arg_name(n@)),
        explicit_for(opts.explicit@, r_arg_name(n@)) is None,
    ensures
        ({
            let p = r_arg_name(n@);
            let test = if id == "bool"@ {
                AssertionView {
                    param: p,
                    requirement: "must be logical or integer"@,
                    condition: "is.logical("@ + p + ") || is.integer("@ + p + ")"@,
                    message: None,
                }
            } else if id == "i32"@ {
                AssertionView {
                    param: p,
                    requirement: "must be integer or whole-number numeric"@,
                    condition: "is.integer("@ + p + ") || is.logical("@ + p + ") || is.raw("@ + p + ") || (is.numeric("@ + p
                        + ") && all(is.na("@ + p + ") | "@ + p + " == trunc("@ + p + ")))"@,
                    message: None,
                }
            } else {
                AssertionView {
                    param: p,
                    requirement: "must be numeric, logical, or raw"@,
                    condition: "is.numeric("@ + p + ") || is.logical("@ + p + ") || is.raw("@ + p + ")"@,
                    message: None,
                }
            };
            let single = AssertionView {
                param: p,
                requirement: "must have length 1"@,
                condition: "length("@ + p + ") == 1L"@,
                message: None,
            };
            param_checks(Param::Typed { name: Some(n), ty }, skip, opts) == if last_ident(ty) == Some(id) {
                seq![test, single]
            } else {
                seq![test]
            }
        }),
{
    lemma_type_names_differ();
    let r = r_arg_name(n@);
    let scalar = last_ident(ty) == Some(id);
    let c = if scalar {
        if id == "bool"@ {
            RTypeCheck::ScalarLogicalOrInteger
        } else if id == "i32"@ {
            RTypeCheck::ScalarIntegerWide
        } else {
            RTypeCheck::ScalarNumeric
        }
    } else {
        if id == "bool"@ {
            RTypeCheck::VectorLogicalOrInteger
        } else if id == "i32"@ {
            RTypeCheck::VectorIntegerWide
        } else {
            RTypeCheck::VectorNumeric
        }
    };
    let raw = if scalar {
        if id == "bool"@ {
            RTypeCheck::Scalar(RType::Logical)
        } else if id == "i32"@ {
            RTypeCheck::Scalar(RType::Integer)
        } else {
            RTypeCheck::Scalar(RType::Double)
        }
    } else {
        if id == "bool"@ {
            RTypeCheck::Vector(RType::Logical)
        } else if id == "i32"@ {
            RTypeCheck::VectorIntegerStrict
        } else {
            RTypeCheck::Vector(RType::Double)
        }
    };
    if !scalar {
        let segs = ty->Path_0;
        let seg = segs@[segs@.len() - 1];
        let e = leading_type_arg(seg)->Some_0;
        assert(r_check_vec_elem(e) == Some(raw));
    }
    assert(r_check(ty) == Some(raw));
    assert(widened(raw, ty) == c);
    assert(param_checks(Param::Typed { name: Some(n), ty }, skip, opts) =~= check_assertions(c, r) + Seq::empty());
}

/// One guard line per check, in the order of the checks.
pub proof fn lemma_one_guard_per_check(v: Seq<AssertionView>, call: Option<Seq<char>>)
    ensures
        guard_lines(v, call).len() == v.len(),
        forall|i: int| 0 <= i < v.len() ==> #[trigger] guard_lines(v, call)[i] == guard_text(v[i], call),
{
}

} // verus!
