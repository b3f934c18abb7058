//! Naming helpers: case conversions of Rust names and the names of the
//! generated static symbols.
use vstd::prelude::*;
use crate::text::{
    char_is_upper, char_is_uppercase, char_lower, char_to_lowercase, concat2, owned, push_char,
    replace_char, str_eq, str_lower, str_to_lowercase, str_to_uppercase, str_upper,
};

verus! {

/// The snake_case form of a PascalCase name: an underscore before every
/// uppercase character but the first, then every character lowercased.
pub open spec fn snake_case(s: Seq<char>) -> Seq<char>
    decreases s.len(),
{
    if s.len() == 0 {
        Seq::empty()
    } else {
        snake_case(s.drop_last()) + (if char_is_upper(s.last()) && s.len() > 1 {
            seq!['_']
        } else {
            Seq::empty()
        }) + char_lower(s.last())
    }
}

/// The kebab-case form: the snake_case form with every `_` turned into `-`.
pub open spec fn kebab_case(s: Seq<char>) -> Seq<char> {
    replace_char(snake_case(s), '_', seq!['-'])
}

/// What a `rename_all` rule makes of a name: the snake, kebab, lower or upper
/// case form for the four known rules, the name itself otherwise.
pub open spec fn renamed(name: Seq<char>, rule: Option<Seq<char>>) -> Seq<char> {
    match rule {
        Some(r) => if r == "snake_case"@ {
            snake_case(name)
        } else if r == "kebab-case"@ {
            kebab_case(name)
        } else if r == "lower"@ {
            str_lower(name)
        } else if r == "upper"@ {
            str_upper(name)
        } else {
            name
        },
        None => name,
    }
}

/// Convert a PascalCase string to snake_case (`InProgress` → `in_progress`).
pub fn to_snake_case(s: &str) -> (r: String)
    ensures
        r@ == snake_case(s@),
{
    let n = s.unicode_len();
    let mut out = String::new();
    let mut i: usize = 0;
    while i < n
        invariant
            n == s@.len(),
            i <= n,
            out@ == snake_case(s@.take(i as int)),
        decreases n - i,
    {
        let c = s.get_char(i);
        proof {
            assert(s@.take(i + 1).drop_last() =~= s@.take(i as int));
            assert(s@.take(i + 1).last() == c);
        }
        if char_is_uppercase(c) && i > 0 {
            push_char(&mut out, '_');
        }
        let lower = char_to_lowercase(c);
        out.append(lower.as_str());
        proof {
            assert(s@.take(i + 1).len() > 1 <==> i > 0);
            assert(out@ =~= snake_case(s@.take(i + 1)));
        }
        i = i + 1;
    }
    assert(s@.take(n as int) =~= s@);
    out
}

/// Replace every occurrence of `c` in `s` by `r`.
pub fn replace_char_str(s: &str, c: char, r: &str) -> (out: String)
    ensures
        out@ == replace_char(s@, c, r@),
{
    let n = s.unicode_len();
    let mut out = String::new();
    let mut i: usize = 0;
    while i < n
        invariant
            n == s@.len(),
            i <= n,
            out@ == replace_char(s@.take(i as int), c, r@),
        decreases n - i,
    {
        let d = s.get_char(i);
        proof {
            assert(s@.take(i + 1).drop_last() =~= s@.take(i as int));
            assert(s@.take(i + 1).last() == d);
        }
        if d == c {
            out.append(r);
        } else {
            push_char(&mut out, d);
        }
        proof {
            assert(out@ =~= replace_char(s@.take(i + 1), c, r@));
        }
        i = i + 1;
    }
    assert(s@.take(n as int) =~= s@);
    out
}

/// Convert a PascalCase string to kebab-case (`InProgress` → `in-progress`).
pub fn to_kebab_case(s: &str) -> (r: String)
    ensures
        r@ == kebab_case(s@),
{
    let snake = to_snake_case(s);
    proof {
        reveal_strlit("-");
        assert("-"@ =~= seq!['-']);
    }
    replace_char_str(snake.as_str(), '_', "-")
}

/// Apply a `rename_all` transformation to a variant name: `"snake_case"`,
/// `"kebab-case"`, `"lower"` and `"upper"` are known; any other rule, or none,
/// leaves the name unchanged.
pub fn apply_rename_all(name: &str, rename_all: Option<&str>) -> (r: String)
    ensures
        r@ == renamed(name@, match rename_all {
            Some(x) => Some(x@),
            None => None,
        }),
{
    match rename_all {
        Some(rule) => {
            if str_eq(rule, "snake_case") {
                to_snake_case(name)
            } else if str_eq(rule, "kebab-case") {
                to_kebab_case(name)
            } else if str_eq(rule, "lower") {
                str_to_lowercase(name)
            } else if str_eq(rule, "upper") {
                str_to_uppercase(name)
            } else {
                owned(name)
            }
        },
        None => owned(name),
    }
}

/// Name of the generated constant that holds a function's R wrapper source:
/// `R_WRAPPER_` followed by the uppercased Rust name.
pub fn r_wrapper_const_name_for(rust_ident: &str) -> (r: String)
    ensures
        r@ == "R_WRAPPER_"@ + str_upper(rust_ident@),
{
    let upper = str_to_uppercase(rust_ident);
    concat2("R_WRAPPER_", upper.as_str())
}


/// Replacing a character by one character keeps the length and every other
/// character.
pub proof fn lemma_replace_char_single(s: Seq<char>, c: char, r: char)
    ensures
        replace_char(s, c, seq![r]).len() == s.len(),
        forall|i: int|
            0 <= i < s.len() ==> #[trigger] replace_char(s, c, seq![r])[i] == if s[i] == c {
                r
            } else {
                s[i]
            },
    decreases s.len(),
{
    if s.len() > 0 {
        lemma_replace_char_single(s.drop_last(), c, r);
        let prev = replace_char(s.drop_last(), c, seq![r]);
        assert forall|i: int| 0 <= i < s.len() implies #[trigger] replace_char(s, c, seq![r])[i] == if s[i] == c {
            r
        } else {
            s[i]
        } by {
            if i < s.len() - 1 {
                assert(replace_char(s, c, seq![r])[i] == prev[i]);
                assert(s.drop_last()[i] == s[i]);
            }
        }
    }
}

/// kebab-case and snake_case spell the same words: the kebab-case form is
/// the snake_case form with each `_` written `-`, character for character.
pub proof fn lemma_kebab_is_snake_with_hyphens(s: Seq<char>)
    ensures
        kebab_case(s).len() == snake_case(s).len(),
        forall|i: int|
            0 <= i < snake_case(s).len() ==> #[trigger] kebab_case(s)[i] == if snake_case(s)[i] == '_' {
                '-'
            } else {
                snake_case(s)[i]
            },
{
    lemma_replace_char_single(snake_case(s), '_', '-');
}

/// A name passes `rename_all` unchanged when no rule, or no known rule, is
/// given.
pub proof fn lemma_unknown_rule_keeps_name(name: Seq<char>, rule: Option<Seq<char>>)
    requires
        match rule {
            Some(r) => r != "snake_case"@ && r != "kebab-case"@ && r != "lower"@ && r != "upper"@,
            None => true,
        },
    ensures
        renamed(name, rule) == name,
{
}

} // verus!
