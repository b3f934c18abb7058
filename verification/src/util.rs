//! Small helpers shared by the generators: which attributes travel with a
//! generated item, the note that names an item's source location, and the
//! raw string literal that holds an R wrapper.
use vstd::prelude::*;
use crate::text::{decimal, owned, push_decimal, str_eq};

verus! {

/// Whether an attribute's path (when it is a single identifier) is `name`.
pub open spec fn path_is(path: Option<String>, name: Seq<char>) -> bool {
    path matches Some(p) && p@ == name
}

/// The positions, in order, of the attributes whose path is `name`
/// (`matching`) or is not (`!matching`), given per attribute its path when
/// it is a single identifier.
pub fn attr_positions(attr_paths: &[Option<String>], name: &str, matching: bool) -> (r: Vec<usize>)
    ensures
        forall|k: int, l: int| 0 <= k < l < r@.len() ==> r@[k] < r@[l],
        forall|k: int| 0 <= k < r@.len() ==> r@[k] < attr_paths@.len(),
        forall|i: int|
            0 <= i < attr_paths@.len() ==> (r@.contains(i as usize) <==> (path_is(#[trigger] attr_paths@[i], name@)
                == matching)),
{
    let mut kept: Vec<usize> = Vec::new();
    let mut i: usize = 0;
    while i < attr_paths.len()
        invariant
            i <= attr_paths@.len(),
            forall|k: int| 0 <= k < kept@.len() ==> kept@[k] < i,
            forall|k: int, l: int| 0 <= k < l < kept@.len() ==> kept@[k] < kept@[l],
            forall|j: int|
                0 <= j < i ==> (kept@.contains(j as usize) <==> (path_is(#[trigger] attr_paths@[j], name@)
                    == matching)),
        decreases attr_paths@.len() - i,
    {
        let is_name = match &attr_paths[i] {
            Some(p) => str_eq(p.as_str(), name),
            None => false,
        };
        let keep = is_name == matching;
        let ghost old_kept = kept@;
        if keep {
            kept.push(i);
        }
        proof {
            assert forall|j: int|
                0 <= j < i + 1 implies (kept@.contains(j as usize) <==> (path_is(#[trigger] attr_paths@[j], name@)
                == matching)) by {
                if j < i {
                    if kept@.contains(j as usize) && !old_kept.contains(j as usize) {
                        let w = choose|w: int| 0 <= w < kept@.len() && kept@[w] == j as usize;
                        assert(w == old_kept.len());
                    }
                    if old_kept.contains(j as usize) {
                        let w = choose|w: int| 0 <= w < old_kept.len() && old_kept[w] == j as usize;
                        assert(kept@[w] == j as usize);
                    }
                } else {
                    if keep {
                        assert(kept@[old_kept.len() as int] == i);
                    } else {
                        assert(!kept@.contains(i)) by {
                            if kept@.contains(i) {
                                let w = choose|w: int| 0 <= w < kept@.len() && kept@[w] == i;
                                assert(kept@[w] < i);
                            }
                        }
                    }
                }
            }
        }
        i = i + 1;
    }
    kept
}

/// The positions of the `#[cfg(...)]` attributes (given, per attribute, its
/// path when it is a single identifier); generated items carry them so that
/// they are compiled together with the item they come from.
pub fn extract_cfg_attrs(attr_paths: &[Option<String>]) -> (r: Vec<usize>)
    ensures
        forall|k: int, l: int| 0 <= k < l < r@.len() ==> r@[k] < r@[l],
        forall|k: int| 0 <= k < r@.len() ==> r@[k] < attr_paths@.len(),
        forall|i: int|
            0 <= i < attr_paths@.len() ==> (r@.contains(i as usize) <==> path_is(#[trigger] attr_paths@[i], "cfg"@)),
{
    attr_positions(attr_paths, "cfg", true)
}

/// The note naming where an item was written, with a 1-based column
/// (`column` counts from 0).
pub open spec fn location_note(line: nat, column: nat) -> Seq<char> {
    "Generated from source location line "@ + decimal(line) + ", column "@ + decimal(column + 1) + "."@
}

/// The note naming where an item was written: its line, and its column
/// counted from 1 (`column` is the 0-based column a span reports).
pub fn source_location_doc(line: usize, column: usize) -> (r: String)
    requires
        column < usize::MAX,
    ensures
        r@ == location_note(line as nat, column as nat),
{
    let mut s = owned("Generated from source location line ");
    push_decimal(&mut s, line);
    s.append(", column ");
    push_decimal(&mut s, column + 1);
    s.append(".");
    s
}

/// The text of the raw string literal that holds an R wrapper: `r#"`, a
/// newline, the wrapper, a newline and `"#`.
pub fn r_wrapper_raw_literal(s: &str) -> (r: String)
    ensures
        r@ == "r#\"\n"@ + s@ + "\n\"#"@,
{
    let mut r = owned("r#\"\n");
    r.append(s);
    r.append("\n\"#");
    r
}

} // verus!
