//! A plain model of the token trees a procedural macro receives.
use vstd::prelude::*;
use crate::text::str_eq;

verus! {

/// Whether a punctuation character is followed directly by the next one.
#[derive(Clone, Copy, Debug, PartialEq, Eq, Structural)]
pub enum Spacing {
    Alone,
    Joint,
}

/// The delimiter of a token group.
#[derive(Clone, Copy, Debug, PartialEq, Eq, Structural)]
pub enum Delimiter {
    /// `( .. )`
    Parenthesis,
    /// `[ .. ]`
    Bracket,
    /// `{ .. }`
    Brace,
    /// A group without visible delimiters.
    Invisible,
}

/// One token of a macro input: an identifier, a punctuation character,
/// a literal (in its source spelling) or a delimited group of tokens.
#[derive(Debug)]
pub enum TokenTree {
    Ident(String),
    Punct(char, Spacing),
    Literal(String),
    Group(Delimiter, Vec<TokenTree>),
}

/// Whether `t` is the punctuation character `c`.
pub open spec fn is_punct(t: TokenTree, c: char) -> bool {
    match t {
        TokenTree::Punct(ch, _) => ch == c,
        _ => false,
    }
}

/// Whether `t` is the identifier `name`.
pub open spec fn is_ident(t: TokenTree, name: Seq<char>) -> bool {
    match t {
        TokenTree::Ident(id) => id@ == name,
        _ => false,
    }
}

/// The tokens inside a group (none for any other token).
pub open spec fn group_tokens(t: TokenTree) -> Seq<TokenTree> {
    match t {
        TokenTree::Group(_, inner) => inner@,
        _ => Seq::empty(),
    }
}

/// Whether `t` is the punctuation character `c`.
pub fn punct_is(t: &TokenTree, c: char) -> (r: bool)
    ensures
        r == is_punct(*t, c),
{
    match t {
        TokenTree::Punct(ch, _) => *ch == c,
        _ => false,
    }
}

/// Whether `t` is the identifier `name`.
pub fn token_is_ident(t: &TokenTree, name: &str) -> (r: bool)
    ensures
        r == is_ident(*t, name@),
{
    match t {
        TokenTree::Ident(id) => str_eq(id.as_str(), name),
        _ => false,
    }
}

} // verus!
