//! `impl_typed_external!(Type<Args>)`: `TypedExternal` for one
//! monomorphization of a generic type. The type's name is its token text
//! with the spaces around angle brackets removed (`MyWrapper < i32 >` gives
//! `MyWrapper<i32>`).
use vstd::prelude::*;
use crate::text::{concat2, replace_all, str_replace};

verus! {

/// A type's token text with the spaces around `<` and `>` removed:
/// `" < "`, `" > "`, `"< "` and `" >"` are replaced in that order.
pub open spec fn typed_external_name(type_text: Seq<char>) -> Seq<char> {
    replace_all(
        replace_all(replace_all(replace_all(type_text, " < "@, "<"@), " > "@, ">"@), "< "@, "<"@),
        " >"@,
        ">"@,
    )
}

/// The names `impl_typed_external!` gives a type: `TYPE_NAME` and, with a
/// trailing NUL, `TYPE_NAME_CSTR` (`type_text` is the type's tokens written
/// out with spaces between them).
pub fn typed_external_names(type_text: &str) -> (r: (String, String))
    ensures
        r.0@ == typed_external_name(type_text@),
        r.1@ == typed_external_name(type_text@).push('\0'),
{
    proof {
        reveal_strlit(" < ");
        reveal_strlit(" > ");
        reveal_strlit("< ");
        reveal_strlit(" >");
    }
    let a = str_replace(type_text, " < ", "<");
    let b = str_replace(a.as_str(), " > ", ">");
    let c = str_replace(b.as_str(), "< ", "<");
    let name = str_replace(c.as_str(), " >", ">");
    let cstr = concat2(name.as_str(), "\0");
    proof {
        reveal_strlit("\0");
        assert(cstr@ =~= name@.push('\0'));
    }
    (name, cstr)
}

} // verus!
