//! `#[miniextendr] impl Trait for Type`: questions the vtable and C wrapper
//! generators ask of a trait method's signature.
use vstd::prelude::*;
use crate::miniextendr_trait::{
    is_self_ref, param_is_self_ref, param_name_at, returned, typed_names, typed_types, TraitMethodSig,
};
use crate::return_wrap::ClassSystem;
use crate::text::{concat2, concat3, concat4, str_to_uppercase, str_upper, str_lower, str_to_lowercase, decimal, push_decimal, contains_sub, join, join_strings, lines, lines_of, owned, push_string, starts_with, str_contains, str_eq, str_starts_with, views};
use crate::tokens::{is_punct, punct_is, Delimiter, Spacing, TokenTree};
use crate::types::{is_unit_type, last_ident, last_ident_is, Param, TypeModel};

verus! {

/// Whether a parameter type is `&Self` or `&mut Self` (the C wrapper then
/// takes an `ExternalPtr` of the type and borrows from it).
pub fn is_self_ref_type(ty: &TypeModel) -> (r: bool)
    ensures
        r == is_self_ref(*ty),
{
    param_is_self_ref(ty).0
}

/// Whether a method's declared return type (`None` without `->`) is a
/// `Result` path (by its last segment); `unwrap_in_r` then hands the
/// `Result` to R as it is.
pub fn output_is_result(output: Option<&TypeModel>) -> (r: bool)
    ensures
        r == match output {
            Some(t) => last_ident(*t) == Some("Result"@),
            None => false,
        },
{
    match output {
        Some(t) => last_ident_is(t, "Result"),
        None => false,
    }
}

// ---------------------------------------------------------------------------
// `#[miniextendr(...)]` on a trait method
// ---------------------------------------------------------------------------

/// The value of a string literal written `spelling` (escapes resolved);
/// `None` when the token is not a string literal.
pub uninterp spec fn string_literal_value(spelling: Seq<char>) -> Option<Seq<char>>;

/// `syn::LitStr` parsed from a literal token's spelling, and
/// `syn::LitStr::value`: the contract names the result only (escape
/// handling is syn's), and says it depends on the spelling alone.
#[verifier::external_body]
fn parse_string_literal(spelling: &str) -> (r: Option<String>)
    ensures
        match r {
            Some(v) => string_literal_value(spelling@) == Some(v@),
            None => string_literal_value(spelling@) is None,
        },
{
    syn::parse_str::<syn::LitStr>(spelling).ok().map(|lit| lit.value())
}

/// The options of a trait method's `#[miniextendr(...)]` attributes.
pub struct TraitMethodAttrs {
    /// Run a static method on the worker thread.
    pub worker: bool,
    /// Force R's main thread.
    pub unsafe_main_thread: bool,
    /// Coerce every parameter.
    pub coerce: bool,
    /// Check for a user interrupt before the call.
    pub check_interrupt: bool,
    /// Wrap the call in `GetRNGstate` / `PutRNGstate`.
    pub rng: bool,
    /// Hand a `Result` to R as it is.
    pub unwrap_in_r: bool,
    /// Transport errors as tagged values raised in R.
    pub error_in_r: bool,
    /// Leave the method out of every wrapper.
    pub skip: bool,
    /// R default values of parameters, by parameter name (each name once).
    pub defaults: Vec<(String, String)>,
    /// The R-facing method name.
    pub r_name: Option<String>,
}

/// The options as values.
pub struct MethodAttrView {
    pub worker: bool,
    pub unsafe_main_thread: bool,
    pub coerce: bool,
    pub check_interrupt: bool,
    pub rng: bool,
    pub unwrap_in_r: bool,
    pub error_in_r: bool,
    pub skip: bool,
    pub defaults: Seq<(Seq<char>, Seq<char>)>,
    pub r_name: Option<Seq<char>>,
}

/// The view of a list of defaults.
pub open spec fn defaults_view(d: Seq<(String, String)>) -> Seq<(Seq<char>, Seq<char>)> {
    d.map_values(|p: (String, String)| (p.0@, p.1@))
}

/// The options as values.
pub open spec fn attrs_view(a: TraitMethodAttrs) -> MethodAttrView {
    MethodAttrView {
        worker: a.worker,
        unsafe_main_thread: a.unsafe_main_thread,
        coerce: a.coerce,
        check_interrupt: a.check_interrupt,
        rng: a.rng,
        unwrap_in_r: a.unwrap_in_r,
        error_in_r: a.error_in_r,
        skip: a.skip,
        defaults: defaults_view(a.defaults@),
        r_name: match a.r_name {
            Some(n) => Some(n@),
            None => None,
        },
    }
}

/// No option set.
pub open spec fn no_options() -> MethodAttrView {
    MethodAttrView {
        worker: false,
        unsafe_main_thread: false,
        coerce: false,
        check_interrupt: false,
        rng: false,
        unwrap_in_r: false,
        error_in_r: false,
        skip: false,
        defaults: Seq::empty(),
        r_name: None,
    }
}

/// The position of `key` in the defaults, from `i`.
pub open spec fn key_index(d: Seq<(Seq<char>, Seq<char>)>, key: Seq<char>, i: int) -> Option<int>
    decreases d.len() - i,
{
    if i < 0 || i >= d.len() {
        None
    } else if d[i].0 == key {
        Some(i)
    } else {
        key_index(d, key, i + 1)
    }
}

/// The defaults with `key` set to `value` (replacing its earlier value).
pub open spec fn insert_default(d: Seq<(Seq<char>, Seq<char>)>, key: Seq<char>, value: Seq<char>) -> Seq<
    (Seq<char>, Seq<char>),
> {
    match key_index(d, key, 0) {
        Some(i) => d.update(i, (key, value)),
        None => d.push((key, value)),
    }
}

/// A `::` separator at `pos`.
pub open spec fn path_sep_at(t: Seq<TokenTree>, pos: int) -> bool {
    0 <= pos && pos + 1 < t.len() && t[pos] == TokenTree::Punct(':', Spacing::Joint) && is_punct(t[pos + 1], ':')
}

/// Where the `::ident` segments that start at `pos` end; `None` for a `::`
/// without an identifier after it.
pub open spec fn path_tail_end(t: Seq<TokenTree>, pos: int) -> Option<int>
    decreases t.len() - pos,
{
    if path_sep_at(t, pos) {
        if pos + 2 < t.len() && t[pos + 2] is Ident {
            path_tail_end(t, pos + 3)
        } else {
            None
        }
    } else {
        Some(pos)
    }
}

/// The option path at `pos` (`[::] ident (:: ident)*`): its identifier when
/// it is a single one without a leading `::`, and where it ends.
pub open spec fn meta_path(t: Seq<TokenTree>, pos: int) -> Option<(Option<Seq<char>>, int)> {
    let lead = path_sep_at(t, pos);
    let p = if lead {
        pos + 2
    } else {
        pos
    };
    if 0 <= p < t.len() && t[p] is Ident {
        match path_tail_end(t, p + 1) {
            Some(e) => Some(
                (
                    if !lead && e == p + 1 {
                        Some(t[p]->Ident_0@)
                    } else {
                        None
                    },
                    e,
                ),
            ),
            None => None,
        }
    } else {
        None
    }
}

/// `= "<string>"` at `pos`: the string's value and where it ends.
pub open spec fn string_value_at(t: Seq<TokenTree>, pos: int) -> Option<(Seq<char>, int)> {
    if 0 <= pos && pos + 1 < t.len() && is_punct(t[pos], '=') && t[pos + 1] is Literal {
        match string_literal_value(t[pos + 1]->Literal_0@) {
            Some(v) => Some((v, pos + 2)),
            None => None,
        }
    } else {
        None
    }
}

/// The class-system names that hold nested options (`env(worker)`).
pub open spec fn is_class_name(n: Seq<char>) -> bool {
    n == "env"@ || n == "r6"@ || n == "s7"@ || n == "s3"@ || n == "s4"@
}

/// A flag that an option sets, with its name; the flags shared by both
/// levels are `worker`, `main_thread`, `coerce` and `check_interrupt`;
/// `rng` and `skip` only at the top level.
pub open spec fn with_flag(st: MethodAttrView, n: Seq<char>, top: bool) -> Option<MethodAttrView> {
    if n == "worker"@ {
        Some(MethodAttrView { worker: true, ..st })
    } else if n == "main_thread"@ {
        Some(MethodAttrView { unsafe_main_thread: true, ..st })
    } else if n == "coerce"@ {
        Some(MethodAttrView { coerce: true, ..st })
    } else if n == "check_interrupt"@ {
        Some(MethodAttrView { check_interrupt: true, ..st })
    } else if top && n == "rng"@ {
        Some(MethodAttrView { rng: true, ..st })
    } else if top && n == "skip"@ {
        Some(MethodAttrView { skip: true, ..st })
    } else {
        None
    }
}

/// What one option does at a level: `(state, position after it, ok)`.
/// `unwrap_in_r` and `error_in_r` exclude each other; an unknown option is
/// passed over without reading what follows it.
pub open spec fn leaf_entry(t: Seq<TokenTree>, pos: int, name: Option<Seq<char>>, st: MethodAttrView, defaults: bool) -> (
    MethodAttrView,
    int,
    bool,
) {
    if defaults {
        let key = match name {
            Some(n) => n,
            None => Seq::empty(),
        };
        match string_value_at(t, pos) {
            Some((v, e)) => (MethodAttrView { defaults: insert_default(st.defaults, key, v), ..st }, e, true),
            None => (st, pos, false),
        }
    } else {
        match name {
            Some(n) => if n == "unwrap_in_r"@ {
                if st.error_in_r {
                    (st, pos, false)
                } else {
                    (MethodAttrView { unwrap_in_r: true, ..st }, pos, true)
                }
            } else if n == "error_in_r"@ {
                if st.unwrap_in_r {
                    (st, pos, false)
                } else {
                    (MethodAttrView { error_in_r: true, ..st }, pos, true)
                }
            } else {
                match with_flag(st, n, false) {
                    Some(s2) => (s2, pos, true),
                    None => (st, pos, true),
                }
            },
            None => (st, pos, true),
        }
    }
}

/// The options of a nested list (`env(...)` when `!defaults`,
/// `defaults(...)` when `defaults`) from `pos`: the state reached, and
/// whether the list was read to its end without error.
pub open spec fn leaf_loop(t: Seq<TokenTree>, pos: int, st: MethodAttrView, defaults: bool) -> (MethodAttrView, bool)
    decreases t.len() - pos,
{
    match meta_path(t, pos) {
        None => (st, false),
        Some((name, e)) => {
            let (s2, p2, ok) = leaf_entry(t, e, name, st, defaults);
            if !ok {
                (s2, false)
            } else if p2 >= t.len() {
                (s2, true)
            } else if !is_punct(t[p2], ',') {
                (s2, false)
            } else if p2 + 1 >= t.len() {
                (s2, true)
            } else if p2 + 1 <= pos {
                (s2, false)
            } else {
                leaf_loop(t, p2 + 1, s2, defaults)
            }
        },
    }
}

/// What one top-level option does: `(state, position after it, ok)`.
pub open spec fn top_entry(t: Seq<TokenTree>, pos: int, name: Option<Seq<char>>, st: MethodAttrView) -> (
    MethodAttrView,
    int,
    bool,
) {
    match name {
        Some(n) => if is_class_name(n) || n == "defaults"@ {
            if 0 <= pos < t.len() && t[pos] is Group && t[pos]->Group_0 == Delimiter::Parenthesis {
                let r = leaf_loop(t[pos]->Group_1@, 0, st, n == "defaults"@);
                (r.0, pos + 1, r.1)
            } else {
                (st, pos, false)
            }
        } else if n == "r_name"@ {
            match string_value_at(t, pos) {
                Some((v, e)) => (MethodAttrView { r_name: Some(v), ..st }, e, true),
                None => (st, pos, false),
            }
        } else if n == "unwrap_in_r"@ || n == "error_in_r"@ {
            leaf_entry(t, pos, name, st, false)
        } else {
            match with_flag(st, n, true) {
                Some(s2) => (s2, pos, true),
                None => (st, pos, true),
            }
        },
        None => (st, pos, true),
    }
}

/// The top-level options from `pos`: the state reached when the list ends
/// or an error stops it.
pub open spec fn top_loop(t: Seq<TokenTree>, pos: int, st: MethodAttrView) -> MethodAttrView
    decreases t.len() - pos,
{
    match meta_path(t, pos) {
        None => st,
        Some((name, e)) => {
            let (s2, p2, ok) = top_entry(t, e, name, st);
            if !ok || p2 >= t.len() || !is_punct(t[p2], ',') || p2 + 1 >= t.len() || p2 + 1 <= pos {
                s2
            } else {
                top_loop(t, p2 + 1, s2)
            }
        },
    }
}

/// What one `#[miniextendr(...)]` argument list sets (nothing for an empty
/// list).
pub open spec fn attr_options(tokens: Seq<TokenTree>, st: MethodAttrView) -> MethodAttrView {
    if tokens.len() == 0 {
        st
    } else {
        top_loop(tokens, 0, st)
    }
}

/// The view of an optional name.
pub open spec fn name_view(n: Option<String>) -> Option<Seq<char>> {
    match n {
        Some(x) => Some(x@),
        None => None,
    }
}

fn path_sep(t: &Vec<TokenTree>, pos: usize) -> (r: bool)
    ensures
        r == path_sep_at(t@, pos as int),
{
    if pos < t.len() && pos + 1 < t.len() {
        let first = match &t[pos] {
            TokenTree::Punct(c, Spacing::Joint) => *c == ':',
            _ => false,
        };
        first && punct_is(&t[pos + 1], ':')
    } else {
        false
    }
}

fn is_ident_at(t: &Vec<TokenTree>, pos: usize) -> (r: bool)
    ensures
        r == (pos < t@.len() && t@[pos as int] is Ident),
{
    pos < t.len() && match &t[pos] {
        TokenTree::Ident(_) => true,
        _ => false,
    }
}

/// The option path at `pos` (see [`meta_path`]).
fn meta_path_at(t: &Vec<TokenTree>, pos: usize) -> (r: Option<(Option<String>, usize)>)
    ensures
        match r {
            Some((n, e)) => meta_path(t@, pos as int) == Some((name_view(n), e as int)) && e > pos,
            None => meta_path(t@, pos as int) is None,
        },
{
    let n: usize = t.len();
    let lead = path_sep(t, pos);
    let p = if lead {
        pos + 2
    } else {
        pos
    };
    if !is_ident_at(t, p) {
        return None;
    }
    let mut q: usize = p + 1;
    while path_sep(t, q)
        invariant
            n == t@.len(),
            lead == path_sep_at(t@, pos as int),
            p as int == (if lead {
                pos + 2
            } else {
                pos as int
            }),
            t@[p as int] is Ident,
            p < t@.len(),
            p + 1 <= q <= t@.len(),
            path_tail_end(t@, p as int + 1) == path_tail_end(t@, q as int),
        decreases t@.len() - q,
    {
        if is_ident_at(t, q + 2) {
            q = q + 3;
        } else {
            assert(path_tail_end(t@, q as int) is None);
            return None;
        }
    }
    let name = if !lead && q == p + 1 {
        match &t[p] {
            TokenTree::Ident(id) => Some(id.clone()),
            _ => None,
        }
    } else {
        None
    };
    Some((name, q))
}

/// `= "<string>"` at `pos` (see [`string_value_at`]).
fn string_value(t: &Vec<TokenTree>, pos: usize) -> (r: Option<(String, usize)>)
    ensures
        match r {
            Some((v, e)) => string_value_at(t@, pos as int) == Some((v@, e as int)),
            None => string_value_at(t@, pos as int) is None,
        },
{
    if pos < t.len() && pos + 1 < t.len() && punct_is(&t[pos], '=') {
        match &t[pos + 1] {
            TokenTree::Literal(spelling) => match parse_string_literal(spelling.as_str()) {
                Some(v) => Some((v, pos + 2)),
                None => None,
            },
            _ => None,
        }
    } else {
        None
    }
}

/// Set `key` to `value` in the defaults (see [`insert_default`]).
fn insert_default_exec(d: &mut Vec<(String, String)>, key: String, value: String)
    ensures
        defaults_view(final(d)@) == insert_default(defaults_view(old(d)@), key@, value@),
{
    let ghost dv = defaults_view(d@);
    let mut i: usize = 0;
    while i < d.len()
        invariant
            i <= d@.len(),
            dv == defaults_view(d@),
            dv == defaults_view(old(d)@),
            key_index(dv, key@, 0) == key_index(dv, key@, i as int),
        decreases d@.len() - i,
    {
        if str_eq(d[i].0.as_str(), key.as_str()) {
            proof {
                assert(dv[i as int].0 == key@);
                assert(key_index(dv, key@, i as int) == Some(i as int));
            }
            d.set(i, (key, value));
            proof {
                assert(defaults_view(d@) =~= dv.update(i as int, (key@, value@)));
                assert(insert_default(dv, key@, value@) == dv.update(i as int, (key@, value@)));
            }
            return;
        }
        i = i + 1;
    }
    d.push((key, value));
    assert(defaults_view(d@) =~= dv.push((key@, value@)));
}

fn set_flag(st: &mut TraitMethodAttrs, n: &str, top: bool) -> (r: bool)
    ensures
        match with_flag(attrs_view(*old(st)), n@, top) {
            Some(s2) => r && attrs_view(*final(st)) == s2,
            None => !r && *final(st) == *old(st),
        },
{
    if str_eq(n, "worker") {
        st.worker = true;
    } else if str_eq(n, "main_thread") {
        st.unsafe_main_thread = true;
    } else if str_eq(n, "coerce") {
        st.coerce = true;
    } else if str_eq(n, "check_interrupt") {
        st.check_interrupt = true;
    } else if top && str_eq(n, "rng") {
        st.rng = true;
    } else if top && str_eq(n, "skip") {
        st.skip = true;
    } else {
        return false;
    }
    true
}

/// One option of a nested list (see [`leaf_entry`]).
fn leaf_entry_exec(t: &Vec<TokenTree>, pos: usize, name: Option<String>, st: &mut TraitMethodAttrs, defaults: bool) -> (r:
    (usize, bool))
    ensures
        (attrs_view(*final(st)), r.0 as int, r.1) == leaf_entry(t@, pos as int, name_view(name), attrs_view(*old(st)), defaults),
        r.0 >= pos,
{
    if defaults {
        let key = match name {
            Some(n) => n,
            None => String::new(),
        };
        return match string_value(t, pos) {
            Some((v, e)) => {
                insert_default_exec(&mut st.defaults, key, v);
                (e, true)
            },
            None => (pos, false),
        };
    }
    match name {
        Some(n) => {
            if str_eq(n.as_str(), "unwrap_in_r") {
                if st.error_in_r {
                    (pos, false)
                } else {
                    st.unwrap_in_r = true;
                    (pos, true)
                }
            } else if str_eq(n.as_str(), "error_in_r") {
                if st.unwrap_in_r {
                    (pos, false)
                } else {
                    st.error_in_r = true;
                    (pos, true)
                }
            } else {
                set_flag(st, n.as_str(), false);
                (pos, true)
            }
        },
        None => (pos, true),
    }
}

/// The options of a nested list (see [`leaf_loop`]).
fn leaf_loop_exec(t: &Vec<TokenTree>, st: &mut TraitMethodAttrs, defaults: bool) -> (r: bool)
    ensures
        (attrs_view(*final(st)), r) == leaf_loop(t@, 0, attrs_view(*old(st)), defaults),
{
    let ghost start = attrs_view(*st);
    let mut pos: usize = 0;
    loop
        invariant
            pos <= t@.len(),
            start == attrs_view(*old(st)),
            leaf_loop(t@, 0, start, defaults) == leaf_loop(t@, pos as int, attrs_view(*st), defaults),
        decreases t@.len() - pos,
    {
        match meta_path_at(t, pos) {
            None => {
                return false;
            },
            Some((name, e)) => {
                let (p2, ok) = leaf_entry_exec(t, e, name, st, defaults);
                if !ok {
                    return false;
                }
                if p2 >= t.len() {
                    return true;
                }
                if !punct_is(&t[p2], ',') {
                    return false;
                }
                if p2 + 1 >= t.len() {
                    return true;
                }
                pos = p2 + 1;
            },
        }
    }
}

/// One top-level option (see [`top_entry`]).
fn top_entry_exec(t: &Vec<TokenTree>, pos: usize, name: Option<String>, st: &mut TraitMethodAttrs) -> (r: (usize, bool))
    ensures
        (attrs_view(*final(st)), r.0 as int, r.1) == top_entry(t@, pos as int, name_view(name), attrs_view(*old(st))),
        r.0 >= pos,
{
    let n = match name {
        Some(n) => n,
        None => {
            return (pos, true);
        },
    };
    let s = n.as_str();
    let is_defaults = str_eq(s, "defaults");
    if str_eq(s, "env") || str_eq(s, "r6") || str_eq(s, "s7") || str_eq(s, "s3") || str_eq(s, "s4") || is_defaults {
        if pos < t.len() {
            match &t[pos] {
                TokenTree::Group(Delimiter::Parenthesis, inner) => {
                    let ok = leaf_loop_exec(inner, st, is_defaults);
                    return (pos + 1, ok);
                },
                _ => {},
            }
        }
        (pos, false)
    } else if str_eq(s, "r_name") {
        match string_value(t, pos) {
            Some((v, e)) => {
                st.r_name = Some(v);
                (e, true)
            },
            None => (pos, false),
        }
    } else if str_eq(s, "unwrap_in_r") || str_eq(s, "error_in_r") {
        leaf_entry_exec(t, pos, Some(n), st, false)
    } else {
        set_flag(st, s, true);
        (pos, true)
    }
}

/// The top-level options of one argument list (see [`attr_options`]).
fn apply_attr_options(t: &Vec<TokenTree>, st: &mut TraitMethodAttrs)
    ensures
        attrs_view(*final(st)) == attr_options(t@, attrs_view(*old(st))),
{
    if t.len() == 0 {
        return;
    }
    let ghost start = attrs_view(*st);
    let mut pos: usize = 0;
    loop
        invariant
            pos < t@.len(),
            start == attrs_view(*old(st)),
            top_loop(t@, 0, start) == top_loop(t@, pos as int, attrs_view(*st)),
        decreases t@.len() - pos,
    {
        match meta_path_at(t, pos) {
            None => {
                return;
            },
            Some((name, e)) => {
                let (p2, ok) = top_entry_exec(t, e, name, st);
                if !ok || p2 >= t.len() {
                    return;
                }
                if !punct_is(&t[p2], ',') || p2 + 1 >= t.len() {
                    return;
                }
                pos = p2 + 1;
            },
        }
    }
}

/// One attribute of a method, as far as the option parser reads it.
pub struct AttrArgs {
    /// The attribute's path when it is a single identifier.
    pub path: Option<String>,
    /// The tokens inside its parentheses, when it is written `#[path(...)]`.
    pub args: Option<Vec<TokenTree>>,
}

/// The options set by the method's `#[miniextendr(...)]` attributes among
/// `attrs[..n]`, in order.
pub open spec fn options_upto(attrs: Seq<AttrArgs>, n: int) -> MethodAttrView
    decreases n,
{
    if n <= 0 || n > attrs.len() {
        no_options()
    } else {
        let before = options_upto(attrs, n - 1);
        let a = attrs[n - 1];
        if name_view(a.path) == Some("miniextendr"@) && a.args is Some {
            attr_options(a.args->Some_0@, before)
        } else {
            before
        }
    }
}

/// Read a trait method's `#[miniextendr(...)]` attributes: the flags
/// `worker`, `main_thread`, `coerce`, `check_interrupt`, `rng`, `skip`,
/// `unwrap_in_r` / `error_in_r` (which exclude each other),
/// `r_name = "..."` and `defaults(param = "...", ...)`, at the top level or
/// (the first four and the two exclusive ones) nested in `env(...)`,
/// `r6(...)`, `s7(...)`, `s3(...)` or `s4(...)`. An attribute that cannot
/// be read is read up to the error; `worker` is also set when
/// `default_worker`.
pub fn parse_trait_method_attrs(attrs: &[AttrArgs], default_worker: bool) -> (r: TraitMethodAttrs)
    ensures
        attrs_view(r) == (MethodAttrView {
            worker: options_upto(attrs@, attrs@.len() as int).worker || default_worker,
            ..options_upto(attrs@, attrs@.len() as int)
        }),
{
    let mut st = TraitMethodAttrs {
        worker: false,
        unsafe_main_thread: false,
        coerce: false,
        check_interrupt: false,
        rng: false,
        unwrap_in_r: false,
        error_in_r: false,
        skip: false,
        defaults: Vec::new(),
        r_name: None,
    };
    assert(defaults_view(st.defaults@) =~= Seq::<(Seq<char>, Seq<char>)>::empty());
    let mut i: usize = 0;
    while i < attrs.len()
        invariant
            i <= attrs@.len(),
            attrs_view(st) == options_upto(attrs@, i as int),
        decreases attrs@.len() - i,
    {
        let a = &attrs[i];
        let is_ours = match &a.path {
            Some(p) => str_eq(p.as_str(), "miniextendr"),
            None => false,
        };
        if is_ours {
            match &a.args {
                Some(t) => apply_attr_options(t, &mut st),
                None => {},
            }
        }
        i = i + 1;
    }
    st.worker = st.worker || default_worker;
    st
}

// ---------------------------------------------------------------------------
// Laws
// ---------------------------------------------------------------------------

/// `unwrap_in_r` and `error_in_r` are not both set.
pub open spec fn exclusive(st: MethodAttrView) -> bool {
    !(st.unwrap_in_r && st.error_in_r)
}

proof fn lemma_leaf_entry_exclusive(t: Seq<TokenTree>, pos: int, name: Option<Seq<char>>, st: MethodAttrView, defaults: bool)
    requires
        exclusive(st),
    ensures
        exclusive(leaf_entry(t, pos, name, st, defaults).0),
        leaf_entry(t, pos, name, st, defaults).1 >= pos,
{
}

proof fn lemma_leaf_loop_exclusive(t: Seq<TokenTree>, pos: int, st: MethodAttrView, defaults: bool)
    requires
        exclusive(st),
    ensures
        exclusive(leaf_loop(t, pos, st, defaults).0),
    decreases t.len() - pos,
{
    match meta_path(t, pos) {
        None => {},
        Some((name, e)) => {
            lemma_leaf_entry_exclusive(t, e, name, st, defaults);
            let (s2, p2, ok) = leaf_entry(t, e, name, st, defaults);
            if ok && p2 < t.len() && is_punct(t[p2], ',') && p2 + 1 < t.len() && p2 + 1 > pos {
                lemma_leaf_loop_exclusive(t, p2 + 1, s2, defaults);
            }
        },
    }
}

proof fn lemma_top_loop_exclusive(t: Seq<TokenTree>, pos: int, st: MethodAttrView)
    requires
        exclusive(st),
    ensures
        exclusive(top_loop(t, pos, st)),
    decreases t.len() - pos,
{
    match meta_path(t, pos) {
        None => {},
        Some((name, e)) => {
            let (s2, p2, ok) = top_entry(t, e, name, st);
            assert(exclusive(s2)) by {
                match name {
                    Some(n) => {
                        if is_class_name(n) || n == "defaults"@ {
                            if 0 <= e < t.len() && t[e] is Group && t[e]->Group_0 == Delimiter::Parenthesis {
                                lemma_leaf_loop_exclusive(t[e]->Group_1@, 0, st, n == "defaults"@);
                            }
                        } else if n == "unwrap_in_r"@ || n == "error_in_r"@ {
                            lemma_leaf_entry_exclusive(t, e, name, st, false);
                        }
                    },
                    None => {},
                }
            }
            if ok && p2 < t.len() && is_punct(t[p2], ',') && p2 + 1 < t.len() && p2 + 1 > pos {
                lemma_top_loop_exclusive(t, p2 + 1, s2);
            }
        },
    }
}

/// `unwrap_in_r` and `error_in_r` exclude each other: whatever the
/// attributes say, the options never hold both.
pub proof fn lemma_unwrap_and_error_in_r_exclusive(attrs: Seq<AttrArgs>, n: int)
    ensures
        !(options_upto(attrs, n).unwrap_in_r && options_upto(attrs, n).error_in_r),
    decreases n,
{
    if 0 < n <= attrs.len() {
        lemma_unwrap_and_error_in_r_exclusive(attrs, n - 1);
        let a = attrs[n - 1];
        if name_view(a.path) == Some("miniextendr"@) && a.args is Some && a.args->Some_0@.len() > 0 {
            lemma_top_loop_exclusive(a.args->Some_0@, 0, options_upto(attrs, n - 1));
        }
    }
}

// ---------------------------------------------------------------------------
// Export and documentation options of the trait wrappers
// ---------------------------------------------------------------------------

/// The export and documentation options of a trait impl's R wrappers.
#[derive(Clone, Copy, Debug, PartialEq, Eq, Structural)]
pub struct TraitWrapperOpts {
    /// The class system the wrappers are written for.
    pub class_system: ClassSystem,
    /// The impl block's documentation says `@noRd`.
    pub class_has_no_rd: bool,
    /// `#[miniextendr(internal)]`: documented, not exported.
    pub internal: bool,
    /// `#[miniextendr(noexport)]`: neither documented nor exported.
    pub noexport: bool,
}

/// Whether a wrapper line is a roxygen line.
pub open spec fn is_roxygen_line(l: Seq<char>) -> bool {
    starts_with(l, "#'"@)
}

/// Whether a roxygen line of a suppressed S3 block is kept: the method
/// registration, the parameters, and (with an explicit `@noRd`) the export.
pub open spec fn kept_in_block(l: Seq<char>, keep_export: bool) -> bool {
    contains_sub(l, "@method "@) || contains_sub(l, "@param "@) || (keep_export && contains_sub(l, "@export"@))
}

/// The kept lines of a block, in order.
pub open spec fn kept_lines(block: Seq<Seq<char>>, keep_export: bool) -> Seq<Seq<char>>
    decreases block.len(),
{
    if block.len() == 0 {
        Seq::empty()
    } else {
        kept_lines(block.drop_last(), keep_export) + if kept_in_block(block.last(), keep_export) {
            seq![block.last()]
        } else {
            Seq::empty()
        }
    }
}

/// Whether a block registers an S3 method.
pub open spec fn registers_method(block: Seq<Seq<char>>) -> bool {
    exists|k: int| 0 <= k < block.len() && contains_sub(#[trigger] block[k], "@method "@)
}

/// A suppressed S3 block: `@noRd` and its kept lines when it registers a
/// method, nothing otherwise.
pub open spec fn flush_block(block: Seq<Seq<char>>, keep_export: bool) -> Seq<Seq<char>> {
    if registers_method(block) {
        seq!["#' @noRd"@] + kept_lines(block, keep_export)
    } else {
        Seq::empty()
    }
}

/// The S3 wrapper lines from `i` with the roxygen block `block` pending.
pub open spec fn s3_from(ls: Seq<Seq<char>>, i: int, block: Seq<Seq<char>>, keep_export: bool) -> Seq<Seq<char>>
    decreases ls.len() - i,
{
    if i < 0 || i >= ls.len() {
        flush_block(block, keep_export)
    } else if is_roxygen_line(ls[i]) {
        s3_from(ls, i + 1, block.push(ls[i]), keep_export)
    } else {
        flush_block(block, keep_export) + seq![ls[i]] + s3_from(ls, i + 1, Seq::empty(), keep_export)
    }
}

/// The lines that are not roxygen lines.
pub open spec fn without_roxygen(ls: Seq<Seq<char>>) -> Seq<Seq<char>>
    decreases ls.len(),
{
    if ls.len() == 0 {
        Seq::empty()
    } else {
        without_roxygen(ls.drop_last()) + if is_roxygen_line(ls.last()) {
            Seq::empty()
        } else {
            seq![ls.last()]
        }
    }
}

/// The index of the first roxygen line.
pub open spec fn first_roxygen(ls: Seq<Seq<char>>, i: int) -> Option<int>
    decreases ls.len() - i,
{
    if i < 0 || i >= ls.len() {
        None
    } else if is_roxygen_line(ls[i]) {
        Some(i)
    } else {
        first_roxygen(ls, i + 1)
    }
}

/// Whether a line mentions `@export`.
pub open spec fn mentions_export(l: Seq<char>) -> bool {
    contains_sub(l, "@export"@)
}

/// The lines of an internal wrapper: each `@export` line becomes
/// `@keywords internal`; without one, `@keywords internal` goes before the
/// first roxygen line.
pub open spec fn internal_lines(ls: Seq<Seq<char>>) -> Seq<Seq<char>> {
    if exists|k: int| 0 <= k < ls.len() && mentions_export(#[trigger] ls[k]) {
        ls.map_values(
            |l: Seq<char>|
                if mentions_export(l) {
                    "#' @keywords internal"@
                } else {
                    l
                },
        )
    } else {
        match first_roxygen(ls, 0) {
            Some(p) => ls.insert(p, "#' @keywords internal"@),
            None => ls,
        }
    }
}

/// Whether the wrapper's documentation is suppressed: `@noRd`, or
/// `noexport` without `internal`.
pub open spec fn suppressed(o: TraitWrapperOpts) -> bool {
    o.class_has_no_rd || (o.noexport && !o.internal)
}

/// The wrapper lines after the options.
pub open spec fn wrapper_lines(ls: Seq<Seq<char>>, o: TraitWrapperOpts) -> Seq<Seq<char>> {
    if suppressed(o) {
        if o.class_system == ClassSystem::S3 || o.class_system == ClassSystem::Vctrs {
            s3_from(ls, 0, Seq::empty(), o.class_has_no_rd)
        } else {
            without_roxygen(ls)
        }
    } else if o.internal {
        internal_lines(ls)
    } else {
        ls
    }
}

/// The wrapper after the options: unchanged without any, else its lines
/// after the options, joined by newlines.
pub open spec fn wrapper_output(result: Seq<char>, o: TraitWrapperOpts) -> Seq<char> {
    if suppressed(o) || o.internal {
        join(wrapper_lines(lines(result), o), "\n"@)
    } else {
        result
    }
}

fn flush_block_exec(block: &Vec<String>, keep_export: bool, out: &mut Vec<String>)
    ensures
        views(final(out)@) == views(old(out)@) + flush_block(views(block@), keep_export),
{
    let ghost b = views(block@);
    let mut registers = false;
    let mut k: usize = 0;
    while k < block.len()
        invariant
            k <= block@.len(),
            b == views(block@),
            registers == exists|q: int| 0 <= q < k && contains_sub(#[trigger] b[q], "@method "@),
        decreases block@.len() - k,
    {
        assert(b[k as int] == block@[k as int]@);
        if str_contains(block[k].as_str(), "@method ") {
            registers = true;
        }
        k = k + 1;
    }
    if !registers {
        assert(views(out@) =~= views(out@) + Seq::<Seq<char>>::empty());
        return;
    }
    let ghost start = views(out@);
    push_string(out, owned("#' @noRd"));
    let mut j: usize = 0;
    while j < block.len()
        invariant
            j <= block@.len(),
            b == views(block@),
            views(out@) == start + seq!["#' @noRd"@] + kept_lines(b.take(j as int), keep_export),
        decreases block@.len() - j,
    {
        let l = block[j].as_str();
        assert(b.take(j as int + 1).drop_last() =~= b.take(j as int));
        if str_contains(l, "@method ") || str_contains(l, "@param ") || (keep_export && str_contains(l, "@export")) {
            push_string(out, owned(l));
        }
        assert(views(out@) =~= start + seq!["#' @noRd"@] + kept_lines(b.take(j as int + 1), keep_export));
        j = j + 1;
    }
    assert(b.take(j as int) =~= b);
}

fn s3_lines(ls: &Vec<String>, keep_export: bool) -> (r: Vec<String>)
    ensures
        views(r@) == s3_from(views(ls@), 0, Seq::empty(), keep_export),
{
    let ghost v = views(ls@);
    let mut out: Vec<String> = Vec::new();
    let mut block: Vec<String> = Vec::new();
    let mut i: usize = 0;
    assert(views(block@) =~= Seq::<Seq<char>>::empty());
    assert(views(out@) + s3_from(v, 0, Seq::empty(), keep_export) =~= s3_from(v, 0, Seq::empty(), keep_export));
    while i < ls.len()
        invariant
            i <= ls@.len(),
            v == views(ls@),
            s3_from(v, 0, Seq::empty(), keep_export) == views(out@) + s3_from(v, i as int, views(block@), keep_export),
        decreases ls@.len() - i,
    {
        let l = ls[i].as_str();
        if str_starts_with(l, "#'") {
            push_string(&mut block, owned(l));
        } else {
            let ghost before = views(out@);
            flush_block_exec(&block, keep_export, &mut out);
            push_string(&mut out, owned(l));
            block = Vec::new();
            assert(views(block@) =~= Seq::<Seq<char>>::empty());
        }
        i = i + 1;
    }
    let ghost before = views(out@);
    flush_block_exec(&block, keep_export, &mut out);
    out
}

fn lines_without_roxygen(ls: &Vec<String>) -> (r: Vec<String>)
    ensures
        views(r@) == without_roxygen(views(ls@)),
{
    let ghost v = views(ls@);
    let mut out: Vec<String> = Vec::new();
    let mut i: usize = 0;
    while i < ls.len()
        invariant
            i <= ls@.len(),
            v == views(ls@),
            views(out@) == without_roxygen(v.take(i as int)),
        decreases ls@.len() - i,
    {
        let l = ls[i].as_str();
        assert(v.take(i as int + 1).drop_last() =~= v.take(i as int));
        if !str_starts_with(l, "#'") {
            push_string(&mut out, owned(l));
        }
        assert(views(out@) =~= without_roxygen(v.take(i as int + 1)));
        i = i + 1;
    }
    assert(v.take(i as int) =~= v);
    out
}

fn lines_internal(ls: &Vec<String>) -> (r: Vec<String>)
    ensures
        views(r@) == internal_lines(views(ls@)),
{
    let ghost v = views(ls@);
    let mut has_export = false;
    let mut mapped: Vec<String> = Vec::new();
    let mut first: Option<usize> = None;
    let mut i: usize = 0;
    while i < ls.len()
        invariant
            i <= ls@.len(),
            v == views(ls@),
            has_export == exists|k: int| 0 <= k < i && mentions_export(#[trigger] v[k]),
            views(mapped@) == v.take(i as int).map_values(
                |l: Seq<char>|
                    if mentions_export(l) {
                        "#' @keywords internal"@
                    } else {
                        l
                    },
            ),
            match first {
                Some(p) => p < i && first_roxygen(v, 0) == Some(p as int),
                None => first_roxygen(v, 0) == first_roxygen(v, i as int),
            },
        decreases ls@.len() - i,
    {
        let l = ls[i].as_str();
        let export = str_contains(l, "@export");
        if export {
            has_export = true;
            push_string(&mut mapped, owned("#' @keywords internal"));
        } else {
            push_string(&mut mapped, owned(l));
        }
        if first.is_none() && str_starts_with(l, "#'") {
            first = Some(i);
        }
        assert(views(mapped@) =~= v.take(i as int + 1).map_values(
            |l: Seq<char>|
                if mentions_export(l) {
                    "#' @keywords internal"@
                } else {
                    l
                },
        ));
        i = i + 1;
    }
    assert(v.take(i as int) =~= v);
    if has_export {
        return mapped;
    }
    assert(views(mapped@) =~= v) by {
        assert forall|k: int| 0 <= k < v.len() implies views(mapped@)[k] == v[k] by {
            assert(!mentions_export(v[k]));
        }
    }
    match first {
        Some(p) => {
            mapped.insert(p, owned("#' @keywords internal"));
            assert(views(mapped@) =~= v.insert(p as int, "#' @keywords internal"@));
            mapped
        },
        None => mapped,
    }
}

/// The trait impl's R wrapper after its export and documentation options:
/// with `@noRd` (or `noexport` without `internal`) the roxygen blocks go,
/// except that an S3 / vctrs block that registers a method keeps `@noRd`,
/// its `@method` and `@param` lines and, with an explicit `@noRd`, its
/// `@export`; with `internal` each `@export` becomes `@keywords internal`
/// (or that line goes before the first roxygen line); without options the
/// wrapper is unchanged.
pub fn apply_trait_wrapper_opts(result: &str, opts: TraitWrapperOpts) -> (r: String)
    ensures
        r@ == wrapper_output(result@, opts),
{
    let suppress = opts.class_has_no_rd || (opts.noexport && !opts.internal);
    if !suppress && !opts.internal {
        return owned(result);
    }
    let ls = lines_of(result);
    let out = if suppress {
        match opts.class_system {
            ClassSystem::S3 => s3_lines(&ls, opts.class_has_no_rd),
            ClassSystem::Vctrs => s3_lines(&ls, opts.class_has_no_rd),
            _ => lines_without_roxygen(&ls),
        }
    } else {
        lines_internal(&ls)
    };
    join_strings(&out, "\n")
}

/// Whether every roxygen line of `out` is `#' @noRd` or kept.
pub open spec fn registration_only(out: Seq<Seq<char>>, keep_export: bool) -> bool {
    forall|k: int|
        0 <= k < out.len() && is_roxygen_line(#[trigger] out[k]) ==> out[k] == "#' @noRd"@ || kept_in_block(
            out[k],
            keep_export,
        )
}

proof fn lemma_kept_lines_kept(block: Seq<Seq<char>>, keep_export: bool)
    ensures
        forall|k: int|
            0 <= k < kept_lines(block, keep_export).len() ==> kept_in_block(
                #[trigger] kept_lines(block, keep_export)[k],
                keep_export,
            ),
    decreases block.len(),
{
    if block.len() > 0 {
        lemma_kept_lines_kept(block.drop_last(), keep_export);
        let prev = kept_lines(block.drop_last(), keep_export);
        let all = kept_lines(block, keep_export);
        assert forall|k: int| 0 <= k < all.len() implies kept_in_block(#[trigger] all[k], keep_export) by {
            if k < prev.len() {
                assert(all[k] == prev[k]);
            }
        }
    }
}

proof fn lemma_flush_registration_only(block: Seq<Seq<char>>, keep_export: bool)
    ensures
        registration_only(flush_block(block, keep_export), keep_export),
{
    lemma_kept_lines_kept(block, keep_export);
    let f = flush_block(block, keep_export);
    if registers_method(block) {
        let kl = kept_lines(block, keep_export);
        assert forall|k: int| 0 <= k < f.len() && is_roxygen_line(#[trigger] f[k]) implies f[k] == "#' @noRd"@
            || kept_in_block(f[k], keep_export) by {
            if k > 0 {
                assert(f[k] == kl[k - 1]);
            }
        }
    }
}

proof fn lemma_s3_registration_only(ls: Seq<Seq<char>>, i: int, block: Seq<Seq<char>>, keep_export: bool)
    ensures
        registration_only(s3_from(ls, i, block, keep_export), keep_export),
    decreases ls.len() - i,
{
    lemma_flush_registration_only(block, keep_export);
    if 0 <= i < ls.len() {
        if is_roxygen_line(ls[i]) {
            lemma_s3_registration_only(ls, i + 1, block.push(ls[i]), keep_export);
        } else {
            lemma_s3_registration_only(ls, i + 1, Seq::empty(), keep_export);
            let a = flush_block(block, keep_export);
            let rest = s3_from(ls, i + 1, Seq::empty(), keep_export);
            let out = a + seq![ls[i]] + rest;
            assert forall|k: int| 0 <= k < out.len() && is_roxygen_line(#[trigger] out[k]) implies out[k]
                == "#' @noRd"@ || kept_in_block(out[k], keep_export) by {
                if k < a.len() {
                    assert(out[k] == a[k]);
                } else if k > a.len() {
                    assert(out[k] == rest[k - a.len() - 1]);
                }
            }
        }
    }
}

proof fn lemma_without_roxygen_plain(ls: Seq<Seq<char>>)
    ensures
        forall|k: int| 0 <= k < without_roxygen(ls).len() ==> !is_roxygen_line(#[trigger] without_roxygen(ls)[k]),
    decreases ls.len(),
{
    if ls.len() > 0 {
        lemma_without_roxygen_plain(ls.drop_last());
        let prev = without_roxygen(ls.drop_last());
        let all = without_roxygen(ls);
        assert forall|k: int| 0 <= k < all.len() implies !is_roxygen_line(#[trigger] all[k]) by {
            if k < prev.len() {
                assert(all[k] == prev[k]);
            }
        }
    }
}

proof fn lemma_first_roxygen_bounds(ls: Seq<Seq<char>>, i: int, p: int)
    requires
        0 <= i,
        first_roxygen(ls, i) == Some(p),
    ensures
        i <= p < ls.len(),
    decreases ls.len() - i,
{
    if !is_roxygen_line(ls[i]) {
        lemma_first_roxygen_bounds(ls, i + 1, p);
    }
}

proof fn lemma_keywords_line_not_export()
    ensures
        !mentions_export("#' @keywords internal"@),
{
    let s = "#' @keywords internal"@;
    let p = "@export"@;
    reveal_strlit("#' @keywords internal");
    reveal_strlit("@export");
    assert forall|i: int| 0 <= i && i + p.len() <= s.len() implies #[trigger] s.subrange(i, i + p.len()) != p by {
        if s.subrange(i, i + p.len()) == p {
            assert(s[i] == p[0]);
            assert(s[i + 1] == p[1]);
        }
    }
}

/// The documentation options are kept by the wrappers: with the
/// documentation suppressed, only an S3 / vctrs wrapper keeps roxygen
/// lines, and only `@noRd` and the method registration (`@method`,
/// `@param`, and `@export` under an explicit `@noRd`); an `internal`
/// wrapper mentions `@export` nowhere.
pub proof fn lemma_wrapper_options_kept(ls: Seq<Seq<char>>, o: TraitWrapperOpts)
    ensures
        suppressed(o) && !(o.class_system == ClassSystem::S3 || o.class_system == ClassSystem::Vctrs) ==> forall|k: int|
            0 <= k < wrapper_lines(ls, o).len() ==> !is_roxygen_line(#[trigger] wrapper_lines(ls, o)[k]),
        suppressed(o) && (o.class_system == ClassSystem::S3 || o.class_system == ClassSystem::Vctrs) ==> registration_only(
            wrapper_lines(ls, o),
            o.class_has_no_rd,
        ),
        !suppressed(o) && o.internal ==> forall|k: int|
            0 <= k < wrapper_lines(ls, o).len() ==> !mentions_export(#[trigger] wrapper_lines(ls, o)[k]),
{
    lemma_without_roxygen_plain(ls);
    lemma_s3_registration_only(ls, 0, Seq::empty(), o.class_has_no_rd);
    lemma_keywords_line_not_export();
    if !suppressed(o) && o.internal {
        let w = internal_lines(ls);
        if exists|k: int| 0 <= k < ls.len() && mentions_export(#[trigger] ls[k]) {
        } else {
            match first_roxygen(ls, 0) {
                Some(p) => {
                    lemma_first_roxygen_bounds(ls, 0, p);
                    assert forall|k: int| 0 <= k < w.len() implies !mentions_export(#[trigger] w[k]) by {
                        if k < p {
                            assert(w[k] == ls[k]);
                        } else if k > p {
                            assert(w[k] == ls[k - 1]);
                        }
                    }
                },
                None => {},
            }
        }
    }
}

// ---------------------------------------------------------------------------
// The concrete vtable shims of a trait impl
// ---------------------------------------------------------------------------

/// The shim of one instance method of `impl Trait for Type`, written for
/// the concrete type (no generics).
pub struct ConcreteShim {
    /// The method's position among the impl's methods.
    pub index: usize,
    /// `__vtshim_<Type>__<Trait>__<method>`.
    pub shim_name: String,
    /// `Trait::method`, for the arity error.
    pub display_name: String,
    /// The argument names after the receiver (`arg{i}` for a pattern that
    /// is not a plain identifier).
    pub arg_names: Vec<String>,
    /// For each argument, whether it is `&Self` (read from an
    /// `ExternalPtr` of the concrete type).
    pub self_ref_args: Vec<bool>,
    /// The receiver is `&mut self`.
    pub is_mut: bool,
    /// The method returns a value (not `()`).
    pub has_return: bool,
}

/// The positions of the methods with a receiver among `ms[..n]`.
pub open spec fn receiver_positions(ms: Seq<TraitMethodSig>, n: int) -> Seq<int>
    decreases n,
{
    if n <= 0 || n > ms.len() {
        Seq::empty()
    } else {
        receiver_positions(ms, n - 1) + if ms[n - 1].receiver is Some {
            seq![n - 1]
        } else {
            Seq::empty()
        }
    }
}

/// Whether `c` is the concrete shim of `ms[i]`.
pub open spec fn concrete_shim_of(c: ConcreteShim, type_str: Seq<char>, trait_name: Seq<char>, ms: Seq<TraitMethodSig>, i: int) -> bool {
    let m = ms[i];
    &&& c.index == i
    &&& c.shim_name@ == "__vtshim_"@ + type_str + "__"@ + trait_name + "__"@ + m.name@
    &&& c.display_name@ == trait_name + "::"@ + m.name@
    &&& c.arg_names@.map_values(|n: String| n@) == typed_names(m.params@)
    &&& c.self_ref_args@ == typed_types(m.params@).map_values(|t: TypeModel| is_self_ref(t))
    &&& c.is_mut == (m.receiver is Some && m.receiver->Some_0.mutability)
    &&& c.has_return == returned(m.output) is Some
}

/// Whether `r` holds the concrete shims of the methods `ms`: one per method
/// with a receiver, in order (static methods are not in the vtable).
pub open spec fn vtable_shims_spec(r: Seq<ConcreteShim>, ms: Seq<TraitMethodSig>, type_str: Seq<char>, trait_name: Seq<char>) -> bool {
    let pos = receiver_positions(ms, ms.len() as int);
    &&& r.len() == pos.len()
    &&& forall|k: int| 0 <= k < pos.len() ==> concrete_shim_of(#[trigger] r[k], type_str, trait_name, ms, pos[k])
}

fn shim_args(params: &Vec<Param>) -> (r: (Vec<String>, Vec<bool>))
    ensures
        r.0@.map_values(|n: String| n@) == typed_names(params@),
        r.1@ == typed_types(params@).map_values(|t: TypeModel| is_self_ref(t)),
{
    let mut names: Vec<String> = Vec::new();
    let mut flags: Vec<bool> = Vec::new();
    let mut i: usize = 0;
    while i < params.len()
        invariant
            i <= params@.len(),
            names@.map_values(|n: String| n@) == typed_names(params@.take(i as int)),
            flags@ == typed_types(params@.take(i as int)).map_values(|t: TypeModel| is_self_ref(t)),
        decreases params@.len() - i,
    {
        assert(params@.take(i as int + 1).drop_last() =~= params@.take(i as int));
        match &params[i] {
            Param::Typed { name, ty } => {
                let n = match name {
                    Some(n) => n.clone(),
                    None => {
                        let mut n = String::from_str("arg");
                        push_decimal(&mut n, i);
                        n
                    },
                };
                names.push(n);
                flags.push(param_is_self_ref(ty).0);
            },
            Param::Receiver => {},
        }
        assert(names@.map_values(|n: String| n@) =~= typed_names(params@.take(i as int + 1)));
        assert(flags@ =~= typed_types(params@.take(i as int + 1)).map_values(|t: TypeModel| is_self_ref(t)));
        i = i + 1;
    }
    assert(params@.take(i as int) =~= params@);
    (names, flags)
}

/// The concrete vtable shims of `impl Trait for Type` (see
/// [`vtable_shims_spec`]).
pub fn concrete_vtable_shims(methods: &[TraitMethodSig], type_str: &str, trait_name: &str) -> (r: Vec<ConcreteShim>)
    ensures
        vtable_shims_spec(r@, methods@, type_str@, trait_name@),
{
    let ghost ms = methods@;
    let mut out: Vec<ConcreteShim> = Vec::new();
    let mut i: usize = 0;
    while i < methods.len()
        invariant
            i <= ms.len(),
            ms == methods@,
            forall|k: int| 0 <= k < out@.len() ==> concrete_shim_of(#[trigger] out@[k], type_str@, trait_name@, ms, receiver_positions(ms, i as int)[k]),
            out@.len() == receiver_positions(ms, i as int).len(),
        decreases ms.len() - i,
    {
        let m = &methods[i];
        let ghost before = receiver_positions(ms, i as int);
        match &m.receiver {
            Some(r) => {
                let (arg_names, self_ref_args) = shim_args(&m.params);
                let mut shim_name = concat4("__vtshim_", type_str, "__", trait_name);
                shim_name.append("__");
                shim_name.append(m.name.as_str());
                let has_return = match &m.output {
                    Some(t) => !is_unit_type(t),
                    None => false,
                };
                out.push(
                    ConcreteShim {
                        index: i,
                        shim_name,
                        display_name: concat3(trait_name, "::", m.name.as_str()),
                        arg_names,
                        self_ref_args,
                        is_mut: r.mutability,
                        has_return,
                    },
                );
            },
            None => {},
        }
        proof {
            let now = receiver_positions(ms, i as int + 1);
            if ms[i as int].receiver is Some {
                assert(now == before.push(i as int));
            } else {
                assert(now == before);
            }
            assert forall|k: int| 0 <= k < out@.len() implies concrete_shim_of(
                #[trigger] out@[k],
                type_str@,
                trait_name@,
                ms,
                now[k],
            ) by {
                if k < before.len() {
                    assert(now[k] == before[k]);
                }
            }
        }
        i = i + 1;
    }
    out
}

proof fn lemma_receiver_positions_bound(ms: Seq<TraitMethodSig>, n: int, k: int)
    requires
        0 <= n <= ms.len(),
        0 <= k < receiver_positions(ms, n).len(),
    ensures
        0 <= receiver_positions(ms, n)[k] < n,
        ms[receiver_positions(ms, n)[k]].receiver is Some,
    decreases n,
{
    if n > 0 {
        let prev = receiver_positions(ms, n - 1);
        if k < prev.len() {
            lemma_receiver_positions_bound(ms, n - 1, k);
            assert(receiver_positions(ms, n)[k] == prev[k]);
        }
    }
}

/// Only methods with a receiver get a concrete shim: static methods are
/// resolved at compile time and stay out of the vtable.
pub proof fn lemma_shims_are_instance_methods(r: Seq<ConcreteShim>, ms: Seq<TraitMethodSig>, type_str: Seq<char>, trait_name: Seq<char>)
    requires
        vtable_shims_spec(r, ms, type_str, trait_name),
    ensures
        forall|k: int| 0 <= k < r.len() ==> (#[trigger] r[k]).index < ms.len() && ms[r[k].index as int].receiver is Some,
{
    let pos = receiver_positions(ms, ms.len() as int);
    assert forall|k: int| 0 <= k < r.len() implies (#[trigger] r[k]).index < ms.len() && ms[r[k].index as int].receiver is Some by {
        lemma_receiver_positions_bound(ms, ms.len() as int, k);
        assert(concrete_shim_of(r[k], type_str, trait_name, ms, pos[k]));
    }
}

// ---------------------------------------------------------------------------
// The C wrapper of a trait method
// ---------------------------------------------------------------------------

/// Where the C wrapper runs the method.
#[derive(Clone, Copy, Debug, PartialEq, Eq, Structural)]
pub enum ThreadStrategy {
    MainThread,
    WorkerThread,
}

/// How the C wrapper hands the result to R.
#[derive(Clone, Copy, Debug, PartialEq, Eq, Structural)]
pub enum ReturnChoice {
    /// `unwrap_in_r` on a `Result`: the `Result` goes to R as it is.
    IntoR,
    /// The handling the return type itself calls for.
    FromReturnType,
}

/// The C wrapper of a trait method, as decided from its signature and
/// options.
pub struct CWrapperPlan {
    /// Instance methods, and `main_thread`, stay on R's main thread; a
    /// static method with `worker` runs on the worker thread.
    pub thread: ThreadStrategy,
    /// The parameter names passed to the method (plain identifiers only).
    pub rust_args: Vec<String>,
    /// For each parameter after the receiver, whether it is `&Self` (the
    /// wrapper takes an `ExternalPtr` of the type instead).
    pub self_ref_inputs: Vec<bool>,
    /// For each passed name, whether it is dereferenced (`&*name`) because
    /// its parameter is `&Self`.
    pub deref_args: Vec<bool>,
    /// How the result is handed to R.
    pub return_handling: ReturnChoice,
    /// `R_WRAPPERS_<TYPE>_<TRAIT>_IMPL`.
    pub r_wrappers_const: String,
    /// `Trait::method()`, for the type-mismatch panic.
    pub trait_method_name: String,
    /// For an instance method, whether the receiver is extracted mutably.
    pub self_receiver: Option<bool>,
    pub coerce: bool,
    pub check_interrupt: bool,
    pub rng: bool,
    pub error_in_r: bool,
}

/// The plain-identifier parameter names among `ps`, in order.
pub open spec fn ident_params(ps: Seq<Param>) -> Seq<Seq<char>>
    decreases ps.len(),
{
    if ps.len() == 0 {
        Seq::empty()
    } else {
        ident_params(ps.drop_last()) + match ps.last() {
            Param::Typed { name: Some(n), ty: _ } => seq![n@],
            _ => Seq::empty(),
        }
    }
}

/// Whether `name` names a `&Self` parameter among `ps`.
pub open spec fn names_self_ref(ps: Seq<Param>, name: Seq<char>) -> bool {
    exists|j: int|
        0 <= j < ps.len() && (#[trigger] ps[j] matches Param::Typed { name: Some(n), ty } && n@ == name && is_self_ref(ty))
}

/// Whether `p` is the C wrapper plan of the method `m` of
/// `impl Trait for Type` with the options `a`.
pub open spec fn c_wrapper_plan_spec(p: CWrapperPlan, m: TraitMethodSig, a: TraitMethodAttrs, type_str: Seq<char>, trait_name: Seq<char>) -> bool {
    let args = ident_params(m.params@);
    &&& p.thread == if m.receiver is Some || a.unsafe_main_thread {
        ThreadStrategy::MainThread
    } else if a.worker {
        ThreadStrategy::WorkerThread
    } else {
        ThreadStrategy::MainThread
    }
    &&& p.rust_args@.map_values(|n: String| n@) == args
    &&& p.self_ref_inputs@ == typed_types(m.params@).map_values(|t: TypeModel| is_self_ref(t))
    &&& p.deref_args@.len() == args.len()
    &&& forall|j: int| 0 <= j < args.len() ==> #[trigger] p.deref_args@[j] == names_self_ref(m.params@, args[j])
    &&& p.return_handling == if a.unwrap_in_r && (m.output matches Some(t) && last_ident(t) == Some("Result"@)) {
        ReturnChoice::IntoR
    } else {
        ReturnChoice::FromReturnType
    }
    &&& p.r_wrappers_const@ == "R_WRAPPERS_"@ + str_upper(type_str) + "_"@ + str_upper(trait_name) + "_IMPL"@
    &&& p.trait_method_name@ == trait_name + "::"@ + m.name@ + "()"@
    &&& p.self_receiver == match m.receiver {
        Some(r) => Some(r.mutability),
        None => None,
    }
    &&& p.coerce == a.coerce
    &&& p.check_interrupt == a.check_interrupt
    &&& p.rng == a.rng
    &&& p.error_in_r == a.error_in_r
}

fn named_self_ref(params: &Vec<Param>, name: &str) -> (r: bool)
    ensures
        r == names_self_ref(params@, name@),
{
    let mut j: usize = 0;
    while j < params.len()
        invariant
            j <= params@.len(),
            forall|q: int|
                0 <= q < j ==> !(#[trigger] params@[q] matches Param::Typed { name: Some(n), ty } && n@ == name@
                    && is_self_ref(ty)),
        decreases params@.len() - j,
    {
        match &params[j] {
            Param::Typed { name: Some(n), ty } => {
                if str_eq(n.as_str(), name) && param_is_self_ref(ty).0 {
                    return true;
                }
            },
            _ => {},
        }
        j = j + 1;
    }
    false
}

fn ident_param_names(params: &Vec<Param>) -> (r: Vec<String>)
    ensures
        r@.map_values(|n: String| n@) == ident_params(params@),
{
    let mut out: Vec<String> = Vec::new();
    let mut i: usize = 0;
    while i < params.len()
        invariant
            i <= params@.len(),
            out@.map_values(|n: String| n@) == ident_params(params@.take(i as int)),
        decreases params@.len() - i,
    {
        assert(params@.take(i as int + 1).drop_last() =~= params@.take(i as int));
        match &params[i] {
            Param::Typed { name: Some(n), ty: _ } => out.push(n.clone()),
            _ => {},
        }
        assert(out@.map_values(|n: String| n@) =~= ident_params(params@.take(i as int + 1)));
        i = i + 1;
    }
    assert(params@.take(i as int) =~= params@);
    out
}

/// The C wrapper plan of the method `method` of `impl Trait for Type` with
/// the options `attrs` (see [`c_wrapper_plan_spec`]).
pub fn trait_method_c_wrapper_plan(method: &TraitMethodSig, attrs: &TraitMethodAttrs, type_str: &str, trait_name: &str) -> (r:
    CWrapperPlan)
    ensures
        c_wrapper_plan_spec(r, *method, *attrs, type_str@, trait_name@),
{
    let thread = if method.receiver.is_some() || attrs.unsafe_main_thread {
        ThreadStrategy::MainThread
    } else if attrs.worker {
        ThreadStrategy::WorkerThread
    } else {
        ThreadStrategy::MainThread
    };
    let rust_args = ident_param_names(&method.params);
    let ghost args = ident_params(method.params@);
    let (_, self_ref_inputs) = shim_args(&method.params);
    let mut deref_args: Vec<bool> = Vec::new();
    let mut j: usize = 0;
    while j < rust_args.len()
        invariant
            j <= rust_args@.len(),
            rust_args@.map_values(|n: String| n@) == args,
            deref_args@.len() == j,
            forall|q: int| 0 <= q < j ==> #[trigger] deref_args@[q] == names_self_ref(method.params@, args[q]),
        decreases rust_args@.len() - j,
    {
        assert(args[j as int] == rust_args@[j as int]@);
        deref_args.push(named_self_ref(&method.params, rust_args[j].as_str()));
        j = j + 1;
    }
    let is_result = match &method.output {
        Some(t) => last_ident_is(t, "Result"),
        None => false,
    };
    let return_handling = if attrs.unwrap_in_r && is_result {
        ReturnChoice::IntoR
    } else {
        ReturnChoice::FromReturnType
    };
    let type_upper = str_to_uppercase(type_str);
    let trait_upper = str_to_uppercase(trait_name);
    let mut r_wrappers_const = concat4("R_WRAPPERS_", type_upper.as_str(), "_", trait_upper.as_str());
    r_wrappers_const.append("_IMPL");
    let mut trait_method_name = concat3(trait_name, "::", method.name.as_str());
    trait_method_name.append("()");
    let self_receiver = match &method.receiver {
        Some(r) => Some(r.mutability),
        None => None,
    };
    CWrapperPlan {
        thread,
        rust_args,
        self_ref_inputs,
        deref_args,
        return_handling,
        r_wrappers_const,
        trait_method_name,
        self_receiver,
        coerce: attrs.coerce,
        check_interrupt: attrs.check_interrupt,
        rng: attrs.rng,
        error_in_r: attrs.error_in_r,
    }
}

/// An instance method's wrapper always runs on R's main thread (its
/// receiver cannot cross threads); only a static method with `worker` and
/// without `main_thread` goes to the worker thread.
pub proof fn lemma_instance_methods_on_main_thread(
    p: CWrapperPlan,
    m: TraitMethodSig,
    a: TraitMethodAttrs,
    type_str: Seq<char>,
    trait_name: Seq<char>,
)
    requires
        c_wrapper_plan_spec(p, m, a, type_str, trait_name),
    ensures
        m.receiver is Some ==> p.thread == ThreadStrategy::MainThread,
        p.thread == ThreadStrategy::WorkerThread <==> (m.receiver is None && !a.unsafe_main_thread && a.worker),
{
}

// ---------------------------------------------------------------------------
// The vtable static of a trait impl
// ---------------------------------------------------------------------------

/// What `#[miniextendr] impl Trait for Type` generates around its vtable,
/// by name.
pub struct VtableStaticPlan {
    /// `__VTABLE_<TRAIT>_FOR_<TYPE>`.
    pub vtable_static_name: String,
    /// `<Trait>VTable`, in the trait's module.
    pub vtable_type_name: String,
    /// `__<trait>_build_vtable`, in the trait's module.
    pub builder_fn: String,
    /// `<TYPE>_<TRAIT>_CALL_DEFS`.
    pub call_defs_const: String,
    /// `R_WRAPPERS_<TYPE>_<TRAIT>_IMPL`.
    pub r_wrappers_const: String,
    /// The methods that get wrappers (all but the skipped ones), in order.
    pub kept: Vec<usize>,
    /// The number of call definitions: kept methods and constants.
    pub call_defs_len: usize,
    /// Whether the impl block itself is emitted (it has items and no
    /// blanket impl provides it).
    pub emit_impl: bool,
    /// For a generic trait (`Trait<T>`), the vtable is built inline from
    /// concrete shims instead of the trait's builder.
    pub inline_vtable: bool,
}

/// The positions of the methods not skipped among `skip[..n]`.
pub open spec fn kept_positions(skip: Seq<bool>, n: int) -> Seq<usize>
    decreases n,
{
    if n <= 0 || n > skip.len() {
        Seq::empty()
    } else {
        kept_positions(skip, n - 1) + if skip[n - 1] {
            Seq::empty()
        } else {
            seq![(n - 1) as usize]
        }
    }
}

/// Whether `p` is the vtable plan of the impl of `trait_name` for the type
/// `type_ident` (`type_upper_name` being the type's uppercased name used in
/// the static's name), with the methods' skip flags `skip`, `n_consts`
/// constants, whether the trait is generic, and whether a blanket impl
/// provides the impl.
pub open spec fn vtable_static_spec(
    p: VtableStaticPlan,
    type_ident: Seq<char>,
    type_upper_name: Seq<char>,
    trait_name: Seq<char>,
    skip: Seq<bool>,
    n_consts: nat,
    generic_trait: bool,
    blanket: bool,
) -> bool {
    let kept = kept_positions(skip, skip.len() as int);
    &&& p.vtable_static_name@ == "__VTABLE_"@ + str_upper(trait_name) + "_FOR_"@ + type_upper_name
    &&& p.vtable_type_name@ == trait_name + "VTable"@
    &&& p.builder_fn@ == "__"@ + str_lower(trait_name) + "_build_vtable"@
    &&& p.call_defs_const@ == str_upper(type_ident) + "_"@ + str_upper(trait_name) + "_CALL_DEFS"@
    &&& p.r_wrappers_const@ == "R_WRAPPERS_"@ + str_upper(type_ident) + "_"@ + str_upper(trait_name) + "_IMPL"@
    &&& p.kept@ == kept
    &&& p.call_defs_len == kept.len() + n_consts
    &&& p.emit_impl == ((skip.len() > 0 || n_consts > 0) && !blanket)
    &&& p.inline_vtable == generic_trait
}

/// The vtable plan of `impl Trait for Type` (see [`vtable_static_spec`]).
pub fn vtable_static_plan(
    type_ident: &str,
    type_upper_name: &str,
    trait_name: &str,
    skip: &[bool],
    n_consts: usize,
    generic_trait: bool,
    blanket: bool,
) -> (r: VtableStaticPlan)
    requires
        skip@.len() + n_consts <= usize::MAX,
    ensures
        vtable_static_spec(r, type_ident@, type_upper_name@, trait_name@, skip@, n_consts as nat, generic_trait, blanket),
{
    let trait_upper = str_to_uppercase(trait_name);
    let trait_lower = str_to_lowercase(trait_name);
    let type_upper = str_to_uppercase(type_ident);
    let mut kept: Vec<usize> = Vec::new();
    let mut i: usize = 0;
    while i < skip.len()
        invariant
            i <= skip@.len(),
            kept@ == kept_positions(skip@, i as int),
            kept@.len() <= i,
        decreases skip@.len() - i,
    {
        if !skip[i] {
            kept.push(i);
        }
        assert(kept@ =~= kept_positions(skip@, i as int + 1));
        i = i + 1;
    }
    let vtable_static_name = concat4("__VTABLE_", trait_upper.as_str(), "_FOR_", type_upper_name);
    let call_defs_const = concat4(type_upper.as_str(), "_", trait_upper.as_str(), "_CALL_DEFS");
    let mut r_wrappers_const = concat4("R_WRAPPERS_", type_upper.as_str(), "_", trait_upper.as_str());
    r_wrappers_const.append("_IMPL");
    let call_defs_len = kept.len() + n_consts;
    VtableStaticPlan {
        vtable_static_name,
        vtable_type_name: concat2(trait_name, "VTable"),
        builder_fn: concat3("__", trait_lower.as_str(), "_build_vtable"),
        call_defs_const,
        r_wrappers_const,
        kept,
        call_defs_len,
        emit_impl: (skip.len() > 0 || n_consts > 0) && !blanket,
        inline_vtable: generic_trait,
    }
}

} // verus!
