//! Conservative R-grammar validation for the `r!` macro.
//!
//! The validator rejects only constructs that R's parser is sure to refuse
//! and accepts everything else: a trailing binary operator, two binary
//! operators that R never reads as unary next to each other, an empty
//! argument in a call, empty parentheses after a binary operator, and
//! `if` / `while` / `for` headers that are empty, lack `in` or lack a body.
//! Index groups (`x[,1]`), `<-`, `->`, `%op%`, `~` formulas and
//! `;`-separated statements are never rejected for their own sake.
use vstd::prelude::*;
use crate::text::{owned, push_char};
use crate::tokens::{group_tokens, is_ident, is_punct, punct_is, token_is_ident, Delimiter, Spacing, TokenTree};

verus! {

/// The control-flow keywords whose condition is checked.
#[derive(Clone, Copy, Debug, PartialEq, Eq, Structural)]
pub enum Keyword {
    If,
    While,
}

/// A construct that R's parser is sure to reject.
#[derive(Clone, Copy, Debug, PartialEq, Eq, Structural)]
pub enum GrammarError {
    /// The expression ends with a binary operator.
    TrailingBinaryOperator,
    /// Two binary operators stand next to each other (`x * * y`).
    ConsecutiveBinaryOperators(char, char),
    /// A call has an empty argument before its last one (`f(, x)`).
    EmptyCallArgument,
    /// Empty parentheses follow a binary operator (`x @ ()`).
    EmptyParenthesesAfterOperator,
    /// `if ()` / `while ()`.
    EmptyCondition(Keyword),
    /// `if (..)` / `while (..)` with nothing after it.
    MissingBody(Keyword),
    /// `for ()`.
    EmptyForHeader,
    /// `for (..)` without `in`.
    ForMissingIn,
    /// `for (.. in ..)` with nothing after it.
    MissingForBody,
}

// ---------------------------------------------------------------------------
// Token classes
// ---------------------------------------------------------------------------

/// The binary operators that R never reads as unary: `* / ^ % @ $`.
pub open spec fn pure_binary_char(c: char) -> bool {
    c == '*' || c == '/' || c == '^' || c == '%' || c == '@' || c == '$'
}

/// Whether `t` is one of the binary operators that R never reads as unary.
pub open spec fn is_pure_binary(t: TokenTree) -> bool {
    match t {
        TokenTree::Punct(ch, _) => pure_binary_char(ch),
        _ => false,
    }
}

/// Whether `t` can be the callee of a parenthesised group that follows it:
/// an identifier, or a `( .. )` or `[ .. ]` group (`f(..)()`, `x[1](..)`).
pub open spec fn is_call_head(t: TokenTree) -> bool {
    match t {
        TokenTree::Ident(_) => true,
        TokenTree::Group(d, _) => d == Delimiter::Parenthesis || d == Delimiter::Bracket,
        _ => false,
    }
}

// ---------------------------------------------------------------------------
// The checks on one sequence
// ---------------------------------------------------------------------------

/// Whether the last token of `s[lo..hi)` that is not `;` is a binary
/// operator that R never reads as unary.
pub open spec fn ends_with_binary_op(s: Seq<TokenTree>, lo: int, hi: int) -> bool {
    exists|k: int|
        #![trigger s[k]]
        lo <= k < hi && is_pure_binary(s[k]) && forall|j: int| k < j < hi ==> is_punct(#[trigger] s[j], ';')
}

/// Whether `s[j]` and `s[j + 1]` are two such operators, the first not
/// joined to the second.
pub open spec fn double_op_at(s: Seq<TokenTree>, j: int) -> bool {
    match s[j] {
        TokenTree::Punct(c0, Spacing::Alone) => match s[j + 1] {
            TokenTree::Punct(c1, _) => pure_binary_char(c0) && pure_binary_char(c1),
            _ => false,
        },
        _ => false,
    }
}

/// The first pair of adjacent such operators in `s[from..hi)`.
pub open spec fn first_double_op(s: Seq<TokenTree>, from: int, hi: int) -> Option<(char, char)>
    decreases hi - from,
{
    if from + 1 >= hi {
        None
    } else if double_op_at(s, from) {
        Some((s[from]->Punct_0, s[from + 1]->Punct_0))
    } else {
        first_double_op(s, from + 1, hi)
    }
}

/// Whether a call's argument list has an empty argument before its last
/// one: a comma at its start or right after another comma.
pub open spec fn has_empty_argument(args: Seq<TokenTree>) -> bool {
    exists|k: int|
        #![trigger args[k]]
        0 <= k < args.len() && is_punct(args[k], ',') && (k == 0 || is_punct(args[k - 1], ','))
}

/// Whether the identifier `in` occurs among `inner`.
pub open spec fn has_in(inner: Seq<TokenTree>) -> bool {
    exists|k: int| 0 <= k < inner.len() && is_ident(#[trigger] inner[k], "in"@)
}

/// The error of a control-flow keyword before the parenthesised group at
/// `pos` in the sequence `s[lo..hi)`.
pub open spec fn keyword_error(s: Seq<TokenTree>, lo: int, hi: int, pos: int) -> Option<GrammarError> {
    if pos > lo {
        let inner = group_tokens(s[pos]);
        let kw = s[pos - 1];
        if is_ident(kw, "if"@) || is_ident(kw, "while"@) {
            let k = if is_ident(kw, "if"@) {
                Keyword::If
            } else {
                Keyword::While
            };
            if inner.len() == 0 {
                Some(GrammarError::EmptyCondition(k))
            } else if pos + 1 >= hi {
                Some(GrammarError::MissingBody(k))
            } else {
                None
            }
        } else if is_ident(kw, "for"@) {
            if inner.len() == 0 {
                Some(GrammarError::EmptyForHeader)
            } else if !has_in(inner) {
                Some(GrammarError::ForMissingIn)
            } else if pos + 1 >= hi {
                Some(GrammarError::MissingForBody)
            } else {
                None
            }
        } else {
            None
        }
    } else {
        None
    }
}

// ---------------------------------------------------------------------------
// The whole walk
// ---------------------------------------------------------------------------

/// The first error in the sequence `s[lo..hi)`: a trailing operator, then
/// a pair of adjacent operators, then the first error inside its groups,
/// from left to right.
pub open spec fn sequence_error(s: Seq<TokenTree>, lo: int, hi: int) -> Option<GrammarError>
    decreases s, 1int, 0int,
{
    if lo >= hi {
        None
    } else if ends_with_binary_op(s, lo, hi) {
        Some(GrammarError::TrailingBinaryOperator)
    } else {
        match first_double_op(s, lo, hi) {
            Some(p) => Some(GrammarError::ConsecutiveBinaryOperators(p.0, p.1)),
            None => groups_error(s, lo, hi, lo),
        }
    }
}

/// The first error of the groups among `s[i..hi)`, within the sequence
/// `s[lo..hi)`.
pub open spec fn groups_error(s: Seq<TokenTree>, lo: int, hi: int, i: int) -> Option<GrammarError>
    decreases s, 0int, hi - i,
{
    if i < 0 || i >= hi || i >= s.len() {
        None
    } else {
        match group_error(s, lo, hi, i) {
            Some(e) => Some(e),
            None => groups_error(s, lo, hi, i + 1),
        }
    }
}

/// The error of the token at `pos` within the sequence `s[lo..hi)`, when
/// it is a group. A `( .. )` group after a call head may not have an empty
/// argument; one after a binary operator may not be empty; its
/// comma-separated parts are checked, then the keyword before it. The
/// parts of a `[ .. ]` group between commas and the statements of a
/// `{ .. }` group between semicolons are checked; an invisible group is
/// checked as a sequence.
pub open spec fn group_error(s: Seq<TokenTree>, lo: int, hi: int, pos: int) -> Option<GrammarError>
    decreases s[pos], 0int, 0int,
{
    if 0 <= pos < s.len() {
        match s[pos] {
            TokenTree::Group(d, inner) => match d {
                Delimiter::Parenthesis => {
                    let call = pos > lo && is_call_head(s[pos - 1]);
                    if call && has_empty_argument(inner@) {
                        Some(GrammarError::EmptyCallArgument)
                    } else if !call && inner@.len() == 0 && pos > lo && is_pure_binary(s[pos - 1]) {
                        Some(GrammarError::EmptyParenthesesAfterOperator)
                    } else {
                        match parts_error(inner@, 0, 0, inner@.len() as int, ',') {
                            Some(e) => Some(e),
                            None => keyword_error(s, lo, hi, pos),
                        }
                    }
                },
                Delimiter::Bracket => parts_error(inner@, 0, 0, inner@.len() as int, ','),
                Delimiter::Brace => parts_error(inner@, 0, 0, inner@.len() as int, ';'),
                Delimiter::Invisible => sequence_error(inner@, 0, inner@.len() as int),
            },
            _ => None,
        }
    } else {
        None
    }
}

/// The first error among the parts of `s[..hi)` between the separators
/// `sep`, scanning from `j`, where the current part began at `start`.
pub open spec fn parts_error(s: Seq<TokenTree>, start: int, j: int, hi: int, sep: char) -> Option<
    GrammarError,
>
    decreases s, 2int, hi - j,
{
    if j >= hi {
        sequence_error(s, start, hi)
    } else if 0 <= j < s.len() && is_punct(s[j], sep) {
        match sequence_error(s, start, j) {
            Some(e) => Some(e),
            None => parts_error(s, j + 1, j + 1, hi, sep),
        }
    } else {
        parts_error(s, start, j + 1, hi, sep)
    }
}

/// The verdict on a whole token stream.
pub open spec fn grammar_error(tokens: Seq<TokenTree>) -> Option<GrammarError> {
    sequence_error(tokens, 0, tokens.len() as int)
}

/// Whether a result reports exactly `e`.
pub open spec fn reports(r: Result<(), GrammarError>, e: Option<GrammarError>) -> bool {
    match r {
        Ok(()) => e is None,
        Err(x) => e == Some(x),
    }
}

// ---------------------------------------------------------------------------
// Executable checks
// ---------------------------------------------------------------------------

fn is_pure_binary_char(c: char) -> (r: bool)
    ensures
        r == pure_binary_char(c),
{
    c == '*' || c == '/' || c == '^' || c == '%' || c == '@' || c == '$'
}

fn token_is_pure_binary(t: &TokenTree) -> (r: bool)
    ensures
        r == is_pure_binary(*t),
{
    match t {
        TokenTree::Punct(ch, _) => is_pure_binary_char(*ch),
        _ => false,
    }
}

fn token_is_call_head(t: &TokenTree) -> (r: bool)
    ensures
        r == is_call_head(*t),
{
    match t {
        TokenTree::Ident(_) => true,
        TokenTree::Group(d, _) => match d {
            Delimiter::Parenthesis => true,
            Delimiter::Bracket => true,
            _ => false,
        },
        _ => false,
    }
}

/// Whether the sequence ends with a binary operator, ignoring trailing
/// semicolons.
fn check_trailing_binary_op(s: &Vec<TokenTree>, lo: usize, hi: usize) -> (r: bool)
    requires
        lo <= hi <= s@.len(),
    ensures
        r == ends_with_binary_op(s@, lo as int, hi as int),
{
    let mut k: usize = hi;
    while k > lo && punct_is(&s[k - 1], ';')
        invariant
            lo <= k <= hi <= s@.len(),
            forall|j: int| k <= j < hi ==> is_punct(#[trigger] s@[j], ';'),
        decreases k,
    {
        k = k - 1;
    }
    if k == lo {
        proof {
            assert forall|m: int| lo <= m < hi implies !(is_pure_binary(s@[m]) && forall|j: int|
                m < j < hi ==> is_punct(#[trigger] s@[j], ';')) by {
                assert(is_punct(s@[m], ';'));
            }
        }
        false
    } else {
        let r = token_is_pure_binary(&s[k - 1]);
        proof {
            if r {
                assert(forall|j: int| (k - 1) < j < hi ==> is_punct(#[trigger] s@[j], ';'));
                assert(ends_with_binary_op(s@, lo as int, hi as int)) by {
                    let w = k - 1;
                    assert(lo <= w < hi && is_pure_binary(s@[w as int]));
                }
            } else {
                assert forall|m: int| lo <= m < hi implies !(is_pure_binary(s@[m]) && forall|j: int|
                    m < j < hi ==> is_punct(#[trigger] s@[j], ';')) by {
                    if m >= k {
                        assert(is_punct(s@[m], ';'));
                    } else if m < k - 1 {
                        assert(!is_punct(s@[k - 1], ';'));
                    }
                }
            }
        }
        r
    }
}

/// The first pair of adjacent binary operators that R never reads as
/// unary.
fn check_consecutive_binary_ops(s: &Vec<TokenTree>, lo: usize, hi: usize) -> (r: Option<(char, char)>)
    requires
        lo <= hi <= s@.len(),
    ensures
        r == first_double_op(s@, lo as int, hi as int),
{
    let mut j: usize = lo;
    while hi > 0 && j < hi - 1
        invariant
            lo <= j <= hi <= s@.len(),
            first_double_op(s@, lo as int, hi as int) == first_double_op(s@, j as int, hi as int),
        decreases hi - j,
    {
        match &s[j] {
            TokenTree::Punct(c0, Spacing::Alone) => {
                match &s[j + 1] {
                    TokenTree::Punct(c1, _) => {
                        if is_pure_binary_char(*c0) && is_pure_binary_char(*c1) {
                            return Some((*c0, *c1));
                        }
                    },
                    _ => {},
                }
            },
            _ => {},
        }
        j = j + 1;
    }
    None
}

/// Whether a call's arguments have an empty one before the last.
fn check_empty_call_arg(args: &Vec<TokenTree>) -> (r: bool)
    ensures
        r == has_empty_argument(args@),
{
    let mut k: usize = 0;
    while k < args.len()
        invariant
            k <= args@.len(),
            forall|m: int|
                0 <= m < k ==> !(is_punct(#[trigger] args@[m], ',') && (m == 0 || is_punct(args@[m - 1], ','))),
        decreases args@.len() - k,
    {
        if punct_is(&args[k], ',') && (k == 0 || punct_is(&args[k - 1], ',')) {
            return true;
        }
        k = k + 1;
    }
    false
}

/// Whether the identifier `in` occurs among the tokens.
fn contains_in(inner: &Vec<TokenTree>) -> (r: bool)
    ensures
        r == has_in(inner@),
{
    let mut k: usize = 0;
    while k < inner.len()
        invariant
            k <= inner@.len(),
            forall|m: int| 0 <= m < k ==> !is_ident(#[trigger] inner@[m], "in"@),
        decreases inner@.len() - k,
    {
        if token_is_ident(&inner[k], "in") {
            return true;
        }
        k = k + 1;
    }
    false
}

/// The check of a control-flow keyword before the parenthesised group at
/// `pos`.
fn validate_control_flow_keyword(s: &Vec<TokenTree>, lo: usize, hi: usize, pos: usize) -> (r: Result<(), GrammarError>)
    requires
        lo <= pos < hi <= s@.len(),
    ensures
        reports(r, keyword_error(s@, lo as int, hi as int, pos as int)),
{
    if pos == lo {
        return Ok(());
    }
    let kw = &s[pos - 1];
    let empty = match &s[pos] {
        TokenTree::Group(_, inner) => inner.len() == 0,
        _ => true,
    };
    let no_body = pos + 1 >= hi;
    let is_if = token_is_ident(kw, "if");
    if is_if || token_is_ident(kw, "while") {
        let k = if is_if {
            Keyword::If
        } else {
            Keyword::While
        };
        if empty {
            Err(GrammarError::EmptyCondition(k))
        } else if no_body {
            Err(GrammarError::MissingBody(k))
        } else {
            Ok(())
        }
    } else if token_is_ident(kw, "for") {
        if empty {
            return Err(GrammarError::EmptyForHeader);
        }
        let with_in = match &s[pos] {
            TokenTree::Group(_, inner) => contains_in(inner),
            _ => false,
        };
        if !with_in {
            Err(GrammarError::ForMissingIn)
        } else if no_body {
            Err(GrammarError::MissingForBody)
        } else {
            Ok(())
        }
    } else {
        Ok(())
    }
}

/// Check the sequence `s[lo..hi)`.
fn validate_sequence(s: &Vec<TokenTree>, lo: usize, hi: usize) -> (r: Result<(), GrammarError>)
    requires
        lo <= hi <= s@.len(),
    ensures
        reports(r, sequence_error(s@, lo as int, hi as int)),
    decreases s@, 1int, 0int,
{
    if lo >= hi {
        return Ok(());
    }
    if check_trailing_binary_op(s, lo, hi) {
        return Err(GrammarError::TrailingBinaryOperator);
    }
    match check_consecutive_binary_ops(s, lo, hi) {
        Some(p) => {
            return Err(GrammarError::ConsecutiveBinaryOperators(p.0, p.1));
        },
        None => {},
    }
    assert(sequence_error(s@, lo as int, hi as int) == groups_error(s@, lo as int, hi as int, lo as int));
    let mut i: usize = lo;
    while i < hi
        invariant
            lo <= i <= hi <= s@.len(),
            sequence_error(s@, lo as int, hi as int) == groups_error(s@, lo as int, hi as int, lo as int),
            groups_error(s@, lo as int, hi as int, lo as int) == groups_error(s@, lo as int, hi as int, i as int),
        decreases hi - i,
    {
        proof {
            assert(decreases_to!(s@ => s@[i as int]));
        }
        match validate_group(s, lo, hi, i) {
            Err(e) => {
                assert(groups_error(s@, lo as int, hi as int, i as int) == Some(e));
                return Err(e);
            },
            Ok(()) => {},
        }
        i = i + 1;
    }
    Ok(())
}

/// Check the token at `pos` of the sequence `s[lo..hi)`, when it is a
/// group.
fn validate_group(s: &Vec<TokenTree>, lo: usize, hi: usize, pos: usize) -> (r: Result<(), GrammarError>)
    requires
        lo <= pos < hi <= s@.len(),
    ensures
        reports(r, group_error(s@, lo as int, hi as int, pos as int)),
    decreases s@[pos as int], 0int, 0int,
{
    match &s[pos] {
        TokenTree::Group(d, inner) => {
            proof {
                assert(decreases_to!(s@[pos as int] => inner@)) by {
                    assert(decreases_to!(s@[pos as int] => s@[pos as int]->Group_1));
                    assert(decreases_to!(*inner => inner@));
                }
            }
            match d {
                Delimiter::Parenthesis => {
                    let call = pos > lo && token_is_call_head(&s[pos - 1]);
                    if call {
                        if check_empty_call_arg(inner) {
                            return Err(GrammarError::EmptyCallArgument);
                        }
                    } else if inner.len() == 0 && pos > lo && token_is_pure_binary(&s[pos - 1]) {
                        return Err(GrammarError::EmptyParenthesesAfterOperator);
                    }
                    match validate_parts(inner, ',') {
                        Err(e) => {
                            return Err(e);
                        },
                        Ok(()) => {},
                    }
                    validate_control_flow_keyword(s, lo, hi, pos)
                },
                Delimiter::Bracket => validate_parts(inner, ','),
                Delimiter::Brace => validate_parts(inner, ';'),
                Delimiter::Invisible => validate_sequence(inner, 0, inner.len()),
            }
        },
        _ => Ok(()),
    }
}

/// Check each part of `s` between the separators `sep`.
fn validate_parts(s: &Vec<TokenTree>, sep: char) -> (r: Result<(), GrammarError>)
    ensures
        reports(r, parts_error(s@, 0, 0, s@.len() as int, sep)),
    decreases s@, 2int, 0int,
{
    let mut start: usize = 0;
    let mut j: usize = 0;
    while j < s.len()
        invariant
            start <= j <= s@.len(),
            parts_error(s@, 0, 0, s@.len() as int, sep) == parts_error(
                s@,
                start as int,
                j as int,
                s@.len() as int,
                sep,
            ),
        decreases s@.len() - j,
    {
        if punct_is(&s[j], sep) {
            match validate_sequence(s, start, j) {
                Err(e) => {
                    return Err(e);
                },
                Ok(()) => {},
            }
            start = j + 1;
        }
        j = j + 1;
    }
    validate_sequence(s, start, s.len())
}

/// Validate the R code of an `r!` call: `Ok` unless it holds a construct
/// that R's parser is sure to reject, and then the first such construct.
pub fn validate(tokens: &Vec<TokenTree>) -> (r: Result<(), GrammarError>)
    ensures
        reports(r, grammar_error(tokens@)),
{
    validate_sequence(tokens, 0, tokens.len())
}

// ---------------------------------------------------------------------------
// Laws
// ---------------------------------------------------------------------------

/// Whether `s[lo..hi)` is flat (no group) and holds no binary operator that
/// R never reads as unary.
pub open spec fn plain_operands(s: Seq<TokenTree>, lo: int, hi: int) -> bool {
    forall|k: int| lo <= k < hi ==> !is_pure_binary(#[trigger] s[k]) && !(s[k] is Group)
}

proof fn lemma_plain_no_double(s: Seq<TokenTree>, from: int, hi: int)
    requires
        0 <= from,
        hi <= s.len(),
        plain_operands(s, from, hi),
    ensures
        first_double_op(s, from, hi) is None,
    decreases hi - from,
{
    if from + 1 < hi {
        assert(!is_pure_binary(s[from]));
        lemma_plain_no_double(s, from + 1, hi);
    }
}

proof fn lemma_plain_no_group_error(s: Seq<TokenTree>, lo: int, hi: int, i: int)
    requires
        0 <= lo <= i,
        hi <= s.len(),
        plain_operands(s, lo, hi),
    ensures
        groups_error(s, lo, hi, i) is None,
    decreases hi - i,
{
    if i < hi {
        assert(!(s[i] is Group));
        assert(group_error(s, lo, hi, i) is None);
        lemma_plain_no_group_error(s, lo, hi, i + 1);
    }
}

proof fn lemma_plain_range_accepted(s: Seq<TokenTree>, lo: int, hi: int)
    requires
        0 <= lo,
        hi <= s.len(),
        plain_operands(s, lo, hi),
    ensures
        sequence_error(s, lo, hi) is None,
{
    if lo < hi {
        assert(!ends_with_binary_op(s, lo, hi)) by {
            assert forall|k: int| lo <= k < hi implies !(#[trigger] is_pure_binary(s[k])) by {}
        }
        lemma_plain_no_double(s, lo, hi);
        lemma_plain_no_group_error(s, lo, hi, lo);
    }
}

proof fn lemma_plain_parts_accepted(s: Seq<TokenTree>, start: int, j: int, sep: char)
    requires
        0 <= start <= j,
        plain_operands(s, 0, s.len() as int),
    ensures
        parts_error(s, start, j, s.len() as int, sep) is None,
    decreases s.len() - j,
{
    if j >= s.len() {
        lemma_plain_range_accepted(s, start, s.len() as int);
    } else if is_punct(s[j], sep) {
        lemma_plain_range_accepted(s, start, j);
        lemma_plain_parts_accepted(s, j + 1, j + 1, sep);
    } else {
        lemma_plain_parts_accepted(s, start, j + 1, sep);
    }
}

/// Code made of operands and of operators that R can read as unary or as
/// part of an assignment (`<-`, `<<-`, `->`, `~`, `+`, `-`, `!`, `&&`,
/// `||`, `;` between statements, ...), with no group, is never rejected.
pub proof fn lemma_operator_free_code_accepted(tokens: Seq<TokenTree>)
    requires
        plain_operands(tokens, 0, tokens.len() as int),
    ensures
        grammar_error(tokens) is None,
{
    lemma_plain_range_accepted(tokens, 0, tokens.len() as int);
}

/// Empty slots are refused in a call and accepted in an index: for `name`
/// an identifier that is not a control-flow keyword and plain arguments,
/// `name[args]` is always accepted, while `name(args)` is rejected, with
/// an empty-argument error, exactly when a comma opens the list or follows
/// another comma (`f(, x)`, `f(x,,y)`; `f()` and `f(x,)` pass).
pub proof fn lemma_empty_slots_call_versus_index(name: String, args: Vec<TokenTree>)
    requires
        name@ != "if"@,
        name@ != "while"@,
        name@ != "for"@,
        plain_operands(args@, 0, args@.len() as int),
    ensures
        grammar_error(seq![TokenTree::Ident(name), TokenTree::Group(Delimiter::Bracket, args)]) is None,
        grammar_error(seq![TokenTree::Ident(name), TokenTree::Group(Delimiter::Parenthesis, args)]) == if has_empty_argument(
            args@,
        ) {
            Some(GrammarError::EmptyCallArgument)
        } else {
            None
        },
{
    lemma_plain_parts_accepted(args@, 0, 0, ',');
    let head = TokenTree::Ident(name);
    let index = seq![head, TokenTree::Group(Delimiter::Bracket, args)];
    let call = seq![head, TokenTree::Group(Delimiter::Parenthesis, args)];
    assert(!ends_with_binary_op(index, 0, 2)) by {
        assert forall|k: int| 0 <= k < 2 implies !(#[trigger] is_pure_binary(index[k])) by {}
    }
    assert(!ends_with_binary_op(call, 0, 2)) by {
        assert forall|k: int| 0 <= k < 2 implies !(#[trigger] is_pure_binary(call[k])) by {}
    }
    assert(!double_op_at(index, 0) && first_double_op(index, 1, 2) is None);
    assert(!double_op_at(call, 0) && first_double_op(call, 1, 2) is None);
    assert(first_double_op(index, 0, 2) is None);
    assert(first_double_op(call, 0, 2) is None);
    assert(groups_error(index, 0, 2, 2) is None);
    assert(groups_error(call, 0, 2, 2) is None);
    assert(group_error(index, 0, 2, 0) is None);
    assert(group_error(call, 0, 2, 0) is None);
    assert(keyword_error(call, 0, 2, 1) is None);
    assert(group_error(index, 0, 2, 1) is None);
    assert(groups_error(index, 0, 2, 0) is None);
    let expected = if has_empty_argument(args@) {
        Some(GrammarError::EmptyCallArgument)
    } else {
        None
    };
    assert(is_call_head(call[0]));
    assert(call[1] == TokenTree::Group(Delimiter::Parenthesis, args));
    assert(group_error(call, 0, 2, 1) == expected);
    assert(groups_error(call, 0, 2, 1) == expected);
    assert(groups_error(call, 0, 2, 0) == expected);
}

// ---------------------------------------------------------------------------
// Messages
// ---------------------------------------------------------------------------

/// The keyword as written.
pub open spec fn keyword_text(k: Keyword) -> Seq<char> {
    match k {
        Keyword::If => "if"@,
        Keyword::While => "while"@,
    }
}

/// The diagnostic for an error.
pub open spec fn error_message(e: GrammarError) -> Seq<char> {
    match e {
        GrammarError::TrailingBinaryOperator =>
            "R syntax error: expression ends with a binary operator — expected a right-hand operand after the operator"@,
        GrammarError::ConsecutiveBinaryOperators(c0, c1) => "R syntax error: consecutive binary operators `"@.push(
            c0,
        ) + "` and `"@.push(c1) + "` — expected an operand between them"@,
        GrammarError::EmptyCallArgument =>
            "R syntax error: empty argument in function call — `f(, x)` / `f(x,,y)` are not valid R (use `f(NULL, x)` or named arguments if you want a placeholder). Note: `x[, 1]` (index subscript) is valid; use `[[` or `[` groups."@,
        GrammarError::EmptyParenthesesAfterOperator =>
            "R syntax error: binary operator followed by empty parentheses `()` — expected an operand"@,
        GrammarError::EmptyCondition(k) => "R syntax error: `"@ + keyword_text(k) + "` condition is empty — `"@
            + keyword_text(k) + " ()` is not valid R"@,
        GrammarError::MissingBody(k) => "R syntax error: `"@ + keyword_text(k)
            + " (...)` has no body — expected a consequent expression after the condition"@,
        GrammarError::EmptyForHeader =>
            "R syntax error: `for` loop variable list is empty — expected `for (ident in seq)`"@,
        GrammarError::ForMissingIn => "R syntax error: `for` loop missing `in` — expected `for (ident in seq)`"@,
        GrammarError::MissingForBody =>
            "R syntax error: `for (ident in seq)` has no body — expected a loop body after the `for` header"@,
    }
}

impl Keyword {
    /// The keyword as written.
    pub fn as_str(&self) -> (r: &'static str)
        ensures
            r@ == keyword_text(*self),
    {
        match self {
            Keyword::If => "if",
            Keyword::While => "while",
        }
    }
}

impl GrammarError {
    /// The diagnostic reported for this error.
    pub fn message(&self) -> (r: String)
        ensures
            r@ == error_message(*self),
    {
        match self {
            GrammarError::TrailingBinaryOperator => owned(
                "R syntax error: expression ends with a binary operator — expected a right-hand operand after the operator",
            ),
            GrammarError::ConsecutiveBinaryOperators(c0, c1) => {
                let mut m = owned("R syntax error: consecutive binary operators `");
                push_char(&mut m, *c0);
                m.append("` and `");
                push_char(&mut m, *c1);
                m.append("` — expected an operand between them");
                m
            },
            GrammarError::EmptyCallArgument => owned(
                "R syntax error: empty argument in function call — `f(, x)` / `f(x,,y)` are not valid R (use `f(NULL, x)` or named arguments if you want a placeholder). Note: `x[, 1]` (index subscript) is valid; use `[[` or `[` groups.",
            ),
            GrammarError::EmptyParenthesesAfterOperator => owned(
                "R syntax error: binary operator followed by empty parentheses `()` — expected an operand",
            ),
            GrammarError::EmptyCondition(k) => {
                let mut m = owned("R syntax error: `");
                m.append(k.as_str());
                m.append("` condition is empty — `");
                m.append(k.as_str());
                m.append(" ()` is not valid R");
                m
            },
            GrammarError::MissingBody(k) => {
                let mut m = owned("R syntax error: `");
                m.append(k.as_str());
                m.append(" (...)` has no body — expected a consequent expression after the condition");
                m
            },
            GrammarError::EmptyForHeader => owned(
                "R syntax error: `for` loop variable list is empty — expected `for (ident in seq)`",
            ),
            GrammarError::ForMissingIn => owned(
                "R syntax error: `for` loop missing `in` — expected `for (ident in seq)`",
            ),
            GrammarError::MissingForBody => owned(
                "R syntax error: `for (ident in seq)` has no body — expected a loop body after the `for` header",
            ),
        }
    }
}

} // verus!
