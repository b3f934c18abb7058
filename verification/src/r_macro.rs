//! The `r!` macro's input: an optional `env: <expr>;` head, then R code
//! that the grammar validator checks.
use vstd::prelude::*;
use crate::tokens::{is_ident, is_punct, punct_is, token_is_ident, Spacing, TokenTree};
use crate::text::owned;

pub mod grammar;

verus! {

/// Why an `r!` input was refused before its R code was looked at.
#[derive(Clone, Copy, Debug, PartialEq, Eq, Structural)]
pub enum InputError {
    /// No tokens at all.
    NoTokens,
    /// An `env:` head without the `;` that ends it.
    MissingSemicolon,
    /// Nothing between `env:` and `;`.
    EmptyEnv,
    /// Nothing after the `;` of the `env:` head.
    EmptyCode,
}

/// Whether the input starts with the `env:` head: the identifier `env`
/// and a `:` that is not the first half of `::` (so `env::f()` is R code).
pub open spec fn has_env_head(t: Seq<TokenTree>) -> bool {
    &&& t.len() >= 2
    &&& is_ident(t[0], "env"@)
    &&& t[1] == TokenTree::Punct(':', Spacing::Alone)
}

/// The first `;` at or after `from`.
pub open spec fn first_semicolon(t: Seq<TokenTree>, from: int) -> Option<int>
    decreases t.len() - from,
{
    if from < 0 || from >= t.len() {
        None
    } else if is_punct(t[from], ';') {
        Some(from)
    } else {
        first_semicolon(t, from + 1)
    }
}

/// The input split into the `env` expression's tokens (when there is a
/// head) and the R code: the head runs from after `env:` to the first `;`.
pub open spec fn split_input(t: Seq<TokenTree>) -> Result<(Option<Seq<TokenTree>>, Seq<TokenTree>), InputError> {
    if !has_env_head(t) {
        if t.len() == 0 {
            Err(InputError::NoTokens)
        } else {
            Ok((None, t))
        }
    } else {
        match first_semicolon(t, 2) {
            None => Err(InputError::MissingSemicolon),
            Some(k) => if k == 2 {
                Err(InputError::EmptyEnv)
            } else if k + 1 == t.len() {
                Err(InputError::EmptyCode)
            } else {
                Ok((Some(t.subrange(2, k)), t.subrange(k + 1, t.len() as int)))
            },
        }
    }
}

/// The diagnostic for an input error.
pub open spec fn input_message(e: InputError) -> Seq<char> {
    match e {
        InputError::NoTokens => "r!() requires at least one R token"@,
        InputError::MissingSemicolon =>
            "r!(env: ...) missing `;` separator — expected `r!(env: <expr>; <R code>)`"@,
        InputError::EmptyEnv =>
            "r!(env: ...) has an empty `env` expression — expected `r!(env: <expr>; <R code>)`"@,
        InputError::EmptyCode => "r!(env: ...; <code>) has no R code after the `;` separator"@,
    }
}

impl InputError {
    /// The diagnostic reported for this error.
    pub fn message(&self) -> (r: String)
        ensures
            r@ == input_message(*self),
    {
        match self {
            InputError::NoTokens => owned("r!() requires at least one R token"),
            InputError::MissingSemicolon => owned(
                "r!(env: ...) missing `;` separator — expected `r!(env: <expr>; <R code>)`",
            ),
            InputError::EmptyEnv => owned(
                "r!(env: ...) has an empty `env` expression — expected `r!(env: <expr>; <R code>)`",
            ),
            InputError::EmptyCode => owned("r!(env: ...; <code>) has no R code after the `;` separator"),
        }
    }
}

/// Split an `r!` input into its optional `env` expression tokens and its
/// R code tokens.
pub fn parse_r_macro_input(tokens: Vec<TokenTree>) -> (r: Result<(Option<Vec<TokenTree>>, Vec<TokenTree>), InputError>)
    ensures
        match r {
            Ok((env, code)) => split_input(tokens@) == Ok::<_, InputError>(
                (
                    match env {
                        Some(v) => Some(v@),
                        None => None,
                    },
                    code@,
                ),
            ),
            Err(e) => split_input(tokens@) == Err::<(Option<Seq<TokenTree>>, Seq<TokenTree>), _>(e),
        },
{
    let head = tokens.len() >= 2 && token_is_ident(&tokens[0], "env") && match &tokens[1] {
        TokenTree::Punct(c, Spacing::Alone) => *c == ':',
        _ => false,
    };
    if !head {
        if tokens.len() == 0 {
            return Err(InputError::NoTokens);
        }
        return Ok((None, tokens));
    }
    let mut k: usize = 2;
    while k < tokens.len() && !punct_is(&tokens[k], ';')
        invariant
            2 <= k <= tokens@.len(),
            first_semicolon(tokens@, 2) == first_semicolon(tokens@, k as int),
        decreases tokens@.len() - k,
    {
        k = k + 1;
    }
    if k == tokens.len() {
        return Err(InputError::MissingSemicolon);
    }
    if k == 2 {
        return Err(InputError::EmptyEnv);
    }
    if k + 1 == tokens.len() {
        return Err(InputError::EmptyCode);
    }
    let ghost all = tokens@;
    let mut tokens = tokens;
    let code = tokens.split_off(k + 1);
    tokens.truncate(k);
    let env = tokens.split_off(2);
    assert(env@ =~= all.subrange(2, k as int));
    Ok((Some(env), code))
}

// ---------------------------------------------------------------------------
// Laws
// ---------------------------------------------------------------------------

proof fn lemma_first_semicolon_found(t: Seq<TokenTree>, from: int, k: int)
    requires
        0 <= from,
        first_semicolon(t, from) == Some(k),
    ensures
        from <= k < t.len(),
        is_punct(t[k], ';'),
        forall|j: int| from <= j < k ==> !is_punct(#[trigger] t[j], ';'),
    decreases t.len() - from,
{
    if !is_punct(t[from], ';') {
        lemma_first_semicolon_found(t, from + 1, k);
    }
}

/// An accepted `env:` head splits the input without losing a token: the
/// input is `env`, `:`, the `env` tokens (which hold no `;`), the `;`, and
/// the R code, both parts non-empty.
pub proof fn lemma_env_split_reassembles(t: Seq<TokenTree>, env: Seq<TokenTree>, code: Seq<TokenTree>)
    requires
        split_input(t) == Ok::<_, InputError>((Some(env), code)),
    ensures
        env.len() > 0,
        code.len() > 0,
        is_punct(t[env.len() + 2int], ';'),
        forall|j: int| 0 <= j < env.len() ==> !is_punct(#[trigger] env[j], ';'),
        t =~= seq![t[0], t[1]] + env + seq![t[env.len() + 2int]] + code,
{
    let k = first_semicolon(t, 2)->Some_0;
    lemma_first_semicolon_found(t, 2, k);
    assert forall|j: int| 0 <= j < env.len() implies !is_punct(#[trigger] env[j], ';') by {
        assert(env[j] == t[j + 2]);
    }
}

/// `env::name` is R code (a namespace lookup), never the `env:` head: when
/// the second token is a `:` joined to the next one, the whole input is
/// the R code.
pub proof fn lemma_namespace_is_not_env_head(t: Seq<TokenTree>)
    requires
        t.len() >= 2,
        t[1] == TokenTree::Punct(':', Spacing::Joint),
    ensures
        split_input(t) == Ok::<_, InputError>((None::<Seq<TokenTree>>, t)),
{
}

} // verus!
