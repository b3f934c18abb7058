//! What the class-system generators (env, R6, S3, S4, S7) share: the
//! per-method context (C symbol, R formals, `.Call()` arguments, the
//! `match.arg()` prelude and the argument checks) and the class and method
//! roxygen headers.
use vstd::prelude::*;
use crate::r_preconditions::{
    build_precondition_checks, guard_lines, opt_str_view, options_wf, signature_checks, AssertionView,
    PreconditionOptions,
};
use crate::r_wrapper_builder::{
    build_r_call_args_from_sig, build_r_formals_from_sig, call_arg_pieces, dot_call_text, formal_pieces,
    lemma_lookup_push, lookup, lookup_fn, lookup_pair, normalize_r_arg_string, r_arg_name, starts_with_receiver,
    DotCallBuilder,
};
use crate::text::{
    concat2, concat3, concat4, concat5, contains_sub, find_char, join, join_strings, owned, push_string,
    split_comma_space, split_on_comma_space, starts_with, str_contains, str_eq, str_find_char, str_starts_with,
    str_trim, str_trim_start, trim, trim_start, views, decimal, push_decimal,
};
use crate::types::{is_missing, is_missing_type, Param};
use crate::r_preconditions::opt_view;
use crate::roxygen::{comment_lines, has_roxygen_tag, has_tag, push_roxygen_tags, split_tag, tag_split};

verus! {

// ---------------------------------------------------------------------------
// Class references
// ---------------------------------------------------------------------------

/// Whether `c` may start an R identifier here (`[A-Za-z_]`).
pub open spec fn ident_start(c: char) -> bool {
    ('a' <= c && c <= 'z') || ('A' <= c && c <= 'Z') || c == '_'
}

/// Whether `c` may continue an R identifier here (`[A-Za-z0-9_]`).
pub open spec fn ident_continue(c: char) -> bool {
    ident_start(c) || ('0' <= c && c <= '9')
}

/// A bare identifier: `[A-Za-z_][A-Za-z0-9_]*`.
pub open spec fn is_bare_ident(s: Seq<char>) -> bool {
    s.len() > 0 && ident_start(s[0]) && forall|i: int| 1 <= i < s.len() ==> ident_continue(#[trigger] s[i])
}

/// Whether `s` is a bare identifier (`[A-Za-z_][A-Za-z0-9_]*`).
pub fn is_bare_identifier(s: &str) -> (r: bool)
    ensures
        r == is_bare_ident(s@),
{
    let n = s.unicode_len();
    if n == 0 {
        return false;
    }
    let c0 = s.get_char(0);
    if !(('a' <= c0 && c0 <= 'z') || ('A' <= c0 && c0 <= 'Z') || c0 == '_') {
        return false;
    }
    let mut i: usize = 1;
    while i < n
        invariant
            n == s@.len(),
            1 <= i <= n,
            forall|j: int| 1 <= j < i ==> ident_continue(#[trigger] s@[j]),
        decreases n - i,
    {
        let c = s.get_char(i);
        if !(('a' <= c && c <= 'z') || ('A' <= c && c <= 'Z') || c == '_' || ('0' <= c && c <= '9')) {
            return false;
        }
        i = i + 1;
    }
    true
}

/// The reference to a class named in R code: a placeholder that is resolved
/// to the class's R name when the wrappers are written, for a bare
/// identifier; the name itself otherwise (a namespaced or quoted name).
pub open spec fn class_ref(name: Seq<char>) -> Seq<char> {
    if is_bare_ident(name) {
        ".__MX_CLASS_REF_"@ + name + "__"@
    } else {
        name
    }
}

/// `.__MX_CLASS_REF_<name>__` for a bare identifier, else `name` verbatim.
pub fn class_ref_or_verbatim(name: &str) -> (r: String)
    ensures
        r@ == class_ref(name@),
{
    if is_bare_identifier(name) {
        concat3(".__MX_CLASS_REF_", name, "__")
    } else {
        owned(name)
    }
}

// ---------------------------------------------------------------------------
// Choice placeholders
// ---------------------------------------------------------------------------

/// The formal default of a `match_arg` parameter: a placeholder, keyed by the
/// C symbol and the parameter, that is replaced by the choice vector
/// `c("a", "b", ...)` when the wrappers are written.
pub open spec fn choices_placeholder(c_ident: Seq<char>, r_name: Seq<char>) -> Seq<char> {
    ".__MX_MATCH_ARG_CHOICES_"@ + c_ident + "__"@ + r_name + "__"@
}

/// The `@param` text of an undocumented `match_arg` parameter: a placeholder
/// that is replaced by a description of the choices when the wrappers are
/// written.
pub open spec fn param_doc_placeholder(c_ident: Seq<char>, r_name: Seq<char>) -> Seq<char> {
    ".__MX_MATCH_ARG_DOC_"@ + c_ident + "__"@ + r_name + "__"@
}

/// The choices placeholder of a `match_arg` parameter.
pub fn match_arg_placeholder(c_ident: &str, r_name: &str) -> (r: String)
    ensures
        r@ == choices_placeholder(c_ident@, r_name@),
{
    concat5(".__MX_MATCH_ARG_CHOICES_", c_ident, "__", r_name, "__")
}

/// The `@param` placeholder of a `match_arg` parameter.
pub fn match_arg_param_doc_placeholder(c_ident: &str, r_name: &str) -> (r: String)
    ensures
        r@ == param_doc_placeholder(c_ident@, r_name@),
{
    concat5(".__MX_MATCH_ARG_DOC_", c_ident, "__", r_name, "__")
}

// ---------------------------------------------------------------------------
// The method model
// ---------------------------------------------------------------------------

/// The per-parameter attributes of a method that shape its wrapper.
pub struct ParamAttrs {
    /// `match_arg`: the argument is one of the choices of its Rust enum.
    pub match_arg: bool,
    /// `several_ok`: the argument may name several of the choices.
    pub several_ok: bool,
    /// `choices("a", "b", ...)`: the argument is one of these strings.
    pub choices: Option<Vec<String>>,
}

/// What the class generators read of a method.
pub struct MethodModel {
    /// The Rust name of the method.
    pub ident: String,
    /// The parameters of its signature (the receiver included, if any).
    pub inputs: Vec<Param>,
    /// The author's formal defaults, keyed by R name.
    pub param_defaults: Vec<(String, String)>,
    /// The attributes of its parameters, keyed by Rust name, in order.
    pub per_param: Vec<(String, ParamAttrs)>,
    /// The generic the method implements (`generic = "print"`), if not its
    /// own name.
    pub generic: Option<String>,
    /// The class suffix of an S3 method (`class = "a.b"`), if given.
    pub class: Option<String>,
    /// The knobs of its argument checks (coercion, named checks).
    pub preconditions: PreconditionOptions,
}

/// Whether one of the first `n` parameter attributes marks `r` as `match_arg`.
pub open spec fn match_arg_upto(pp: Seq<(String, ParamAttrs)>, r: Seq<char>, n: int) -> bool {
    exists|j: int| 0 <= j < n && pp[j].1.match_arg && r_arg_name(pp[j].0@) == r
}

/// The formal default of a `choices(...)` parameter: `c("a", "b", ...)`.
pub open spec fn choices_formal(cs: Seq<Seq<char>>) -> Seq<char> {
    "c("@ + join(cs.map_values(|c: Seq<char>| "\""@ + c + "\""@), ", "@) + ")"@
}

/// The `choices(...)` formal of `r` among the first `n` parameter attributes
/// (the first that names it).
pub open spec fn choices_upto(pp: Seq<(String, ParamAttrs)>, r: Seq<char>, n: int) -> Option<Seq<char>>
    decreases n,
{
    if n <= 0 {
        None
    } else {
        match choices_upto(pp, r, n - 1) {
            Some(v) => Some(v),
            None => match pp[n - 1].1.choices {
                Some(cs) => if r_arg_name(pp[n - 1].0@) == r {
                    Some(choices_formal(views(cs@)))
                } else {
                    None
                },
                None => None,
            },
        }
    }
}

/// The formal default of the parameter `r`: the choices placeholder for a
/// `match_arg` parameter (whatever the author gave), else the author's
/// default, else the choice vector of a `choices(...)` parameter.
pub open spec fn effective_default(m: MethodModel, c_ident: Seq<char>, r: Seq<char>) -> Option<Seq<char>> {
    if match_arg_upto(m.per_param@, r, m.per_param@.len() as int) {
        Some(choices_placeholder(c_ident, r))
    } else {
        match lookup(m.param_defaults@, r) {
            Some(d) => Some(d),
            None => choices_upto(m.per_param@, r, m.per_param@.len() as int),
        }
    }
}

fn choices_formal_text(cs: &Vec<String>) -> (r: String)
    ensures
        r@ == choices_formal(views(cs@)),
{
    let mut quoted: Vec<String> = Vec::new();
    let mut i: usize = 0;
    while i < cs.len()
        invariant
            i <= cs@.len(),
            views(quoted@) == views(cs@).take(i as int).map_values(|c: Seq<char>| "\""@ + c + "\""@),
        decreases cs@.len() - i,
    {
        let q = concat3("\"", cs[i].as_str(), "\"");
        proof {
            assert(views(cs@).take(i + 1).map_values(|c: Seq<char>| "\""@ + c + "\""@) =~= views(cs@).take(
                i as int,
            ).map_values(|c: Seq<char>| "\""@ + c + "\""@).push(q@));
        }
        push_string(&mut quoted, q);
        i = i + 1;
    }
    assert(views(cs@).take(cs@.len() as int) =~= views(cs@));
    let joined = join_strings(&quoted, ", ");
    concat3("c(", joined.as_str(), ")")
}

fn push_pair(v: &mut Vec<(String, String)>, k: String, x: String)
    ensures
        final(v)@ == old(v)@.push((k, x)),
{
    v.push((k, x));
}

/// The formal defaults of a method, by R name.
fn effective_r_defaults(method: &MethodModel, c_ident: &str) -> (r: Vec<(String, String)>)
    ensures
        forall|key: Seq<char>| #[trigger] lookup(r@, key) == effective_default(*method, c_ident@, key),
{
    let pp = &method.per_param;
    let mut out: Vec<(String, String)> = Vec::new();
    let mut i: usize = 0;
    while i < pp.len()
        invariant
            i <= pp@.len(),
            forall|key: Seq<char>| #[trigger]
                lookup(out@, key) == if match_arg_upto(pp@, key, i as int) {
                    Some(choices_placeholder(c_ident@, key))
                } else {
                    None
                },
        decreases pp@.len() - i,
    {
        if pp[i].1.match_arg {
            let r = normalize_r_arg_string(pp[i].0.as_str());
            let ph = match_arg_placeholder(c_ident, r.as_str());
            let ghost before = out@;
            let ghost rv = r@;
            push_pair(&mut out, r, ph);
            proof {
                assert forall|key: Seq<char>| #[trigger]
                    lookup(out@, key) == if match_arg_upto(pp@, key, i + 1) {
                        Some(choices_placeholder(c_ident@, key))
                    } else {
                        None
                    } by {
                    lemma_lookup_push(before, out@.last(), key);
                    if match_arg_upto(pp@, key, i as int) {
                        let j = choose|j: int| 0 <= j < i && pp@[j].1.match_arg && r_arg_name(pp@[j].0@) == key;
                        assert(0 <= j < i + 1 && pp@[j].1.match_arg && r_arg_name(pp@[j].0@) == key);
                    } else if rv == key {
                        assert(pp@[i as int].1.match_arg && r_arg_name(pp@[i as int].0@) == key);
                    } else {
                        assert forall|j: int| 0 <= j < i + 1 && pp@[j].1.match_arg implies r_arg_name(pp@[j].0@)
                            != key by {
                            if j < i {
                            }
                        }
                    }
                }
            }
        } else {
            proof {
                assert forall|key: Seq<char>| #[trigger]
                    lookup(out@, key) == if match_arg_upto(pp@, key, i + 1) {
                        Some(choices_placeholder(c_ident@, key))
                    } else {
                        None
                    } by {
                    if match_arg_upto(pp@, key, i + 1) {
                        let j = choose|j: int| 0 <= j < i + 1 && pp@[j].1.match_arg && r_arg_name(pp@[j].0@) == key;
                        assert(j < i);
                    }
                }
            }
        }
        i = i + 1;
    }
    let d = &method.param_defaults;
    let ghost placeholders = out@;
    let mut k: usize = 0;
    assert(d@.take(0) =~= Seq::<(String, String)>::empty());
    while k < d.len()
        invariant
            k <= d@.len(),
            forall|key: Seq<char>| #[trigger]
                lookup(out@, key) == match lookup(placeholders, key) {
                    Some(v) => Some(v),
                    None => lookup(d@.take(k as int), key),
                },
        decreases d@.len() - k,
    {
        let ghost before = out@;
        push_pair(&mut out, d[k].0.clone(), d[k].1.clone());
        proof {
            assert(d@.take(k + 1) =~= d@.take(k as int).push(d@[k as int]));
            assert forall|key: Seq<char>| #[trigger]
                lookup(out@, key) == match lookup(placeholders, key) {
                    Some(v) => Some(v),
                    None => lookup(d@.take(k + 1), key),
                } by {
                lemma_lookup_push(before, out@.last(), key);
                lemma_lookup_push(d@.take(k as int), d@[k as int], key);
            }
        }
        k = k + 1;
    }
    assert(d@.take(d@.len() as int) =~= d@);
    let ghost with_defaults = out@;
    let mut i: usize = 0;
    while i < pp.len()
        invariant
            i <= pp@.len(),
            forall|key: Seq<char>| #[trigger]
                lookup(out@, key) == match lookup(with_defaults, key) {
                    Some(v) => Some(v),
                    None => choices_upto(pp@, key, i as int),
                },
        decreases pp@.len() - i,
    {
        match &pp[i].1.choices {
            Some(cs) => {
                let r = normalize_r_arg_string(pp[i].0.as_str());
                let f = choices_formal_text(cs);
                let ghost before = out@;
                push_pair(&mut out, r, f);
                proof {
                    assert forall|key: Seq<char>| #[trigger]
                        lookup(out@, key) == match lookup(with_defaults, key) {
                            Some(v) => Some(v),
                            None => choices_upto(pp@, key, i + 1),
                        } by {
                        lemma_lookup_push(before, out@.last(), key);
                    }
                }
            },
            None => {},
        }
        i = i + 1;
    }
    out
}

// ---------------------------------------------------------------------------
// MethodContext
// ---------------------------------------------------------------------------

/// What every class generator needs of one method: its C symbol, its R
/// formals (with defaults) and its `.Call()` arguments.
pub struct MethodContext<'a> {
    /// The method.
    pub method: &'a MethodModel,
    /// The C wrapper symbol called by `.Call()` (`C_Counter__inc`).
    pub c_ident: String,
    /// The R formals with defaults (`value, step = 1L`).
    pub params: String,
    /// The `.Call()` arguments (`value, step`).
    pub args: String,
}

/// The R formals of a method.
pub open spec fn method_formals(m: MethodModel, c_ident: Seq<char>) -> Seq<char> {
    join(
        formal_pieces(
            m.inputs@,
            false,
            starts_with_receiver(m.inputs@),
            |k: Seq<char>| effective_default(m, c_ident, k),
            m.inputs@.len() as int,
        ),
        ", "@,
    )
}

/// The `.Call()` arguments of a method.
pub open spec fn method_call_args(m: MethodModel) -> Seq<char> {
    join(call_arg_pieces(m.inputs@, false, starts_with_receiver(m.inputs@), m.inputs@.len() as int), ", "@)
}

impl<'a> MethodContext<'a> {
    /// The context of `method`, whose C wrapper symbol is `c_ident`.
    pub fn new(method: &'a MethodModel, c_ident: &str) -> (r: Self)
        ensures
            r.method == method,
            r.c_ident@ == c_ident@,
            r.params@ == method_formals(*method, c_ident@),
            r.args@ == method_call_args(*method),
    {
        let defaults = effective_r_defaults(method, c_ident);
        proof {
            assert(lookup_fn(defaults@) =~= (|k: Seq<char>| effective_default(*method, c_ident@, k)));
        }
        let params = build_r_formals_from_sig(method.inputs.as_slice(), defaults);
        let args = build_r_call_args_from_sig(method.inputs.as_slice());
        MethodContext { method, c_ident: owned(c_ident), params, args }
    }
}


/// The `@param` placeholders of the `match_arg` parameters, by R name.
pub fn match_arg_doc_placeholder_map(c_ident: &str, method: &MethodModel) -> (r: Vec<(String, String)>)
    ensures
        forall|key: Seq<char>| #[trigger]
            lookup(r@, key) == if match_arg_upto(method.per_param@, key, method.per_param@.len() as int) {
                Some(param_doc_placeholder(c_ident@, key))
            } else {
                None
            },
{
    let pp = &method.per_param;
    let mut out: Vec<(String, String)> = Vec::new();
    let mut i: usize = 0;
    while i < pp.len()
        invariant
            i <= pp@.len(),
            forall|key: Seq<char>| #[trigger]
                lookup(out@, key) == if match_arg_upto(pp@, key, i as int) {
                    Some(param_doc_placeholder(c_ident@, key))
                } else {
                    None
                },
        decreases pp@.len() - i,
    {
        if pp[i].1.match_arg {
            let r = normalize_r_arg_string(pp[i].0.as_str());
            let ph = match_arg_param_doc_placeholder(c_ident, r.as_str());
            let ghost before = out@;
            let ghost rv = r@;
            push_pair(&mut out, r, ph);
            proof {
                assert forall|key: Seq<char>| #[trigger]
                    lookup(out@, key) == if match_arg_upto(pp@, key, i + 1) {
                        Some(param_doc_placeholder(c_ident@, key))
                    } else {
                        None
                    } by {
                    lemma_lookup_push(before, out@.last(), key);
                    if match_arg_upto(pp@, key, i as int) {
                        let j = choose|j: int| 0 <= j < i && pp@[j].1.match_arg && r_arg_name(pp@[j].0@) == key;
                        assert(0 <= j < i + 1 && pp@[j].1.match_arg && r_arg_name(pp@[j].0@) == key);
                    } else if rv == key {
                        assert(pp@[i as int].1.match_arg && r_arg_name(pp@[i as int].0@) == key);
                    } else {
                        assert forall|j: int| 0 <= j < i + 1 && pp@[j].1.match_arg implies r_arg_name(pp@[j].0@)
                            != key by {
                            if j < i {
                            }
                        }
                    }
                }
            }
        } else {
            proof {
                assert forall|key: Seq<char>| #[trigger]
                    lookup(out@, key) == if match_arg_upto(pp@, key, i + 1) {
                        Some(param_doc_placeholder(c_ident@, key))
                    } else {
                        None
                    } by {
                    if match_arg_upto(pp@, key, i + 1) {
                        let j = choose|j: int| 0 <= j < i + 1 && pp@[j].1.match_arg && r_arg_name(pp@[j].0@) == key;
                        assert(j < i);
                    }
                }
            }
        }
        i = i + 1;
    }
    out
}

/// The `match.arg()` tail: `several.ok = TRUE` when several choices are
/// allowed.
pub open spec fn match_arg_tail(several_ok: bool) -> Seq<char> {
    if several_ok {
        ", several.ok = TRUE)"@
    } else {
        ")"@
    }
}

/// The prelude lines of the `match_arg` parameters among the first `n`
/// attributes: a factor becomes its labels, then `base::match.arg()`.
pub open spec fn match_arg_lines(pp: Seq<(String, ParamAttrs)>, n: int) -> Seq<Seq<char>>
    decreases n,
{
    if n <= 0 {
        Seq::empty()
    } else {
        let prev = match_arg_lines(pp, n - 1);
        let e = pp[n - 1];
        let r = r_arg_name(e.0@);
        if e.1.match_arg {
            prev + seq![
                r + " <- if (is.factor("@ + r + ")) as.character("@ + r + ") else "@ + r,
                r + " <- base::match.arg("@ + r + match_arg_tail(e.1.several_ok),
            ]
        } else {
            prev
        }
    }
}

/// The prelude lines of the `choices(...)` parameters among the first `n`
/// attributes.
pub open spec fn choices_lines(pp: Seq<(String, ParamAttrs)>, n: int) -> Seq<Seq<char>>
    decreases n,
{
    if n <= 0 {
        Seq::empty()
    } else {
        let prev = choices_lines(pp, n - 1);
        let e = pp[n - 1];
        let r = r_arg_name(e.0@);
        if e.1.choices is Some {
            prev.push(r + " <- match.arg("@ + r + match_arg_tail(e.1.several_ok))
        } else {
            prev
        }
    }
}

/// The R names validated by `match.arg()` among the first `n` attributes.
pub open spec fn match_arg_names(pp: Seq<(String, ParamAttrs)>, n: int) -> Seq<Seq<char>>
    decreases n,
{
    if n <= 0 {
        Seq::empty()
    } else {
        let prev = match_arg_names(pp, n - 1);
        let e = pp[n - 1];
        if e.1.match_arg || e.1.choices is Some {
            prev.push(r_arg_name(e.0@))
        } else {
            prev
        }
    }
}

/// The `missing()` prelude line of the parameter at `idx`, if it is a
/// `Missing<T>` parameter without a default.
pub open spec fn missing_line(inputs: Seq<Param>, defaults: Seq<(String, String)>, idx: int) -> Option<Seq<char>> {
    match inputs[idx] {
        Param::Typed { name: Some(n), ty } => {
            let r = r_arg_name(n@);
            if is_missing(ty) && lookup(defaults, r) is None {
                Some("if (missing("@ + r + ")) "@ + r + " <- quote(expr=)"@)
            } else {
                None
            }
        },
        _ => None,
    }
}

/// The `missing()` prelude lines of the first `n` parameters.
pub open spec fn missing_lines(inputs: Seq<Param>, defaults: Seq<(String, String)>, n: int) -> Seq<Seq<char>>
    decreases n,
{
    if n <= 0 {
        Seq::empty()
    } else {
        let prev = missing_lines(inputs, defaults, n - 1);
        match missing_line(inputs, defaults, n - 1) {
            Some(l) => prev.push(l),
            None => prev,
        }
    }
}

/// The formals of an instance method: `x` first for the systems that pass
/// the object explicitly, `...` last unless the generic is strict.
pub open spec fn instance_formals_text(params: Seq<char>, add_self_param: bool, include_dots: bool) -> Seq<char> {
    if add_self_param {
        if include_dots {
            if params.len() == 0 {
                "x, ..."@
            } else {
                "x, "@ + params + ", ..."@
            }
        } else {
            if params.len() == 0 {
                "x"@
            } else {
                "x, "@ + params
            }
        }
    } else {
        params
    }
}

/// The `.Call()` arguments of a context as passed to the builder.
pub open spec fn args_list(args: Seq<char>) -> Seq<Seq<char>> {
    if args.len() == 0 {
        Seq::empty()
    } else {
        seq![args]
    }
}

impl<'a> MethodContext<'a> {
    /// The `@param` placeholders of this method's `match_arg` parameters.
    pub fn match_arg_doc_placeholders(&self) -> (r: Vec<(String, String)>)
        ensures
            forall|key: Seq<char>| #[trigger]
                lookup(r@, key) == if match_arg_upto(
                    self.method.per_param@,
                    key,
                    self.method.per_param@.len() as int,
                ) {
                    Some(param_doc_placeholder(self.c_ident@, key))
                } else {
                    None
                },
    {
        match_arg_doc_placeholder_map(self.c_ident.as_str(), self.method)
    }

    /// The lines that validate the `match_arg` and `choices(...)` parameters
    /// with `match.arg()` before the `.Call()`: first the `match_arg` ones
    /// (a factor is first turned into its labels), then the `choices` ones.
    pub fn match_arg_prelude(&self) -> (r: Vec<String>)
        ensures
            views(r@) == match_arg_lines(self.method.per_param@, self.method.per_param@.len() as int)
                + choices_lines(self.method.per_param@, self.method.per_param@.len() as int),
    {
        let pp = &self.method.per_param;
        let mut lines: Vec<String> = Vec::new();
        let mut i: usize = 0;
        while i < pp.len()
            invariant
                i <= pp@.len(),
                views(lines@) == match_arg_lines(pp@, i as int),
            decreases pp@.len() - i,
        {
            if pp[i].1.match_arg {
                let r = normalize_r_arg_string(pp[i].0.as_str());
                let rs = r.as_str();
                let l1 = concat4(rs, " <- if (is.factor(", rs, ")) as.character(");
                let l1 = concat4(l1.as_str(), rs, ") else ", rs);
                let tail = if pp[i].1.several_ok {
                    ", several.ok = TRUE)"
                } else {
                    ")"
                };
                let l2 = concat4(rs, " <- base::match.arg(", rs, tail);
                let ghost before = views(lines@);
                push_string(&mut lines, l1);
                push_string(&mut lines, l2);
                proof {
                    assert(views(lines@) =~= match_arg_lines(pp@, i + 1));
                }
            }
            i = i + 1;
        }
        let ghost first = views(lines@);
        let mut i: usize = 0;
        while i < pp.len()
            invariant
                i <= pp@.len(),
                views(lines@) == first + choices_lines(pp@, i as int),
            decreases pp@.len() - i,
        {
            if pp[i].1.choices.is_some() {
                let r = normalize_r_arg_string(pp[i].0.as_str());
                let rs = r.as_str();
                let tail = if pp[i].1.several_ok {
                    ", several.ok = TRUE)"
                } else {
                    ")"
                };
                let l = concat4(rs, " <- match.arg(", rs, tail);
                push_string(&mut lines, l);
                proof {
                    assert(views(lines@) =~= first + choices_lines(pp@, i + 1));
                }
            }
            i = i + 1;
        }
        lines
    }

    /// The R names of the parameters validated by `match.arg()`, which need
    /// no type check of their own.
    fn match_arg_skip_set(&self) -> (r: Vec<String>)
        ensures
            views(r@) == match_arg_names(self.method.per_param@, self.method.per_param@.len() as int),
    {
        let pp = &self.method.per_param;
        let mut out: Vec<String> = Vec::new();
        let mut i: usize = 0;
        while i < pp.len()
            invariant
                i <= pp@.len(),
                views(out@) == match_arg_names(pp@, i as int),
            decreases pp@.len() - i,
        {
            if pp[i].1.match_arg || pp[i].1.choices.is_some() {
                push_string(&mut out, normalize_r_arg_string(pp[i].0.as_str()));
            }
            i = i + 1;
        }
        out
    }

    /// The `.Call()` of a static method or constructor.
    pub fn static_call(&self) -> (r: String)
        ensures
            r@ == dot_call_text(self.c_ident@, false, args_list(self.args@)),
    {
        DotCallBuilder::new(self.c_ident.as_str()).with_args_str(self.args.as_str()).build()
    }

    /// The `.Call()` of an instance method, the object (`self`, `x`,
    /// `private$.ptr`, `x@ptr`, ...) passed first.
    pub fn instance_call(&self, self_expr: &str) -> (r: String)
        ensures
            r@ == dot_call_text(self.c_ident@, false, seq![self_expr@] + args_list(self.args@)),
    {
        DotCallBuilder::new(self.c_ident.as_str()).with_self(self_expr).with_args_str(self.args.as_str()).build()
    }

    /// Like [`instance_call`](Self::instance_call), passing `.call = NULL`:
    /// for dispatch sites (S7 property accessors) where `match.call()` would
    /// capture the dispatch frame.
    pub fn instance_call_null_attr(&self, self_expr: &str) -> (r: String)
        ensures
            r@ == dot_call_text(self.c_ident@, true, seq![self_expr@] + args_list(self.args@)),
    {
        DotCallBuilder::new(self.c_ident.as_str()).null_call_attribution().with_self(self_expr).with_args_str(
            self.args.as_str(),
        ).build()
    }

    /// The formals of an instance method: `x, <params>, ...` for S3, S4 and
    /// S7, `<params>` for env and R6 (where `self` is implicit).
    pub fn instance_formals(&self, add_self_param: bool) -> (r: String)
        ensures
            r@ == instance_formals_text(self.params@, add_self_param, true),
    {
        self.instance_formals_with_dots(add_self_param, true)
    }

    /// The formals of an instance method, with `...` only when
    /// `include_dots` (a strict generic takes no extra arguments).
    pub fn instance_formals_with_dots(&self, add_self_param: bool, include_dots: bool) -> (r: String)
        ensures
            r@ == instance_formals_text(self.params@, add_self_param, include_dots),
    {
        let empty = self.params.as_str().unicode_len() == 0;
        if add_self_param {
            if include_dots {
                if empty {
                    owned("x, ...")
                } else {
                    concat3("x, ", self.params.as_str(), ", ...")
                }
            } else {
                if empty {
                    owned("x")
                } else {
                    concat2("x, ", self.params.as_str())
                }
            }
        } else {
            self.params.clone()
        }
    }

    /// The name of the generic: the override, else the method's own name.
    pub fn generic_name(&self) -> (r: String)
        ensures
            r@ == match self.method.generic {
                Some(g) => g@,
                None => self.method.ident@,
            },
    {
        match &self.method.generic {
            Some(g) => g.clone(),
            None => self.method.ident.clone(),
        }
    }

    /// Whether the method implements a generic other than its own name.
    pub fn has_generic_override(&self) -> (r: bool)
        ensures
            r == self.method.generic is Some,
    {
        self.method.generic.is_some()
    }

    /// The comment naming where the method was written:
    /// `# Type::method (line:col)`, with `column` counted from 0 and shown
    /// from 1.
    pub fn source_comment(&self, type_ident: &str, line: usize, column: usize) -> (r: String)
        requires
            column < usize::MAX,
        ensures
            r@ == "# "@ + type_ident@ + "::"@ + self.method.ident@ + " ("@ + decimal(line as nat) + ":"@ + decimal(
                column as nat + 1,
            ) + ")"@,
    {
        let mut r = concat4("# ", type_ident, "::", self.method.ident.as_str());
        r.append(" (");
        push_decimal(&mut r, line);
        r.append(":");
        push_decimal(&mut r, column + 1);
        r.append(")");
        r
    }

    /// The custom class suffix of an S3 method, for double dispatch
    /// (`vec_ptype2.my_class.my_class`).
    pub fn class_suffix(&self) -> (r: Option<&str>)
        ensures
            match r {
                Some(c) => self.method.class matches Some(k) && c@ == k@,
                None => self.method.class is None,
            },
    {
        match &self.method.class {
            Some(c) => Some(c.as_str()),
            None => None,
        }
    }

    /// Whether the method has a custom class suffix.
    pub fn has_class_override(&self) -> (r: bool)
        ensures
            r == self.method.class is Some,
    {
        self.method.class.is_some()
    }

    /// The argument-check guard lines of the method's parameters; the
    /// parameters validated by `match.arg()` get no type check.
    pub fn precondition_checks(&self) -> (r: Vec<String>)
        requires
            options_wf(self.method.preconditions),
        ensures
            views(r@) == guard_lines(
                signature_checks(
                    self.method.inputs@,
                    match_arg_names(self.method.per_param@, self.method.per_param@.len() as int),
                    self.method.preconditions,
                    self.method.inputs@.len() as int,
                ),
                None,
            ),
    {
        let skip = self.match_arg_skip_set();
        let out = build_precondition_checks(self.method.inputs.as_slice(), skip.as_slice(), &self.method.preconditions);
        out.guards(None)
    }

    /// `if (missing(p)) p <- quote(expr=)` for each `Missing<T>` parameter
    /// without a default (one with a default gets it in the formals).
    pub fn missing_prelude(&self) -> (r: Vec<String>)
        ensures
            views(r@) == missing_lines(
                self.method.inputs@,
                self.method.param_defaults@,
                self.method.inputs@.len() as int,
            ),
    {
        let inputs = &self.method.inputs;
        let mut out: Vec<String> = Vec::new();
        let mut i: usize = 0;
        while i < inputs.len()
            invariant
                i <= inputs@.len(),
                views(out@) == missing_lines(inputs@, self.method.param_defaults@, i as int),
            decreases inputs@.len() - i,
        {
            match &inputs[i] {
                Param::Typed { name: Some(n), ty } => {
                    let r = normalize_r_arg_string(n.as_str());
                    if is_missing_type(ty) && lookup_pair(&self.method.param_defaults, r.as_str()).is_none() {
                        let rs = r.as_str();
                        let l = concat5("if (missing(", rs, ")) ", rs, " <- quote(expr=)");
                        push_string(&mut out, l);
                    }
                },
                _ => {},
            }
            proof {
                assert(views(out@) =~= missing_lines(inputs@, self.method.param_defaults@, i + 1));
            }
            i = i + 1;
        }
        out
    }
}


// ---------------------------------------------------------------------------
// Class documentation
// ---------------------------------------------------------------------------

/// One line when `b` holds, none otherwise.
pub open spec fn line_if(b: bool, l: Seq<char>) -> Seq<Seq<char>> {
    if b {
        seq![l]
    } else {
        Seq::empty()
    }
}

/// The roxygen header of a class: generated `@title`, `@name`, `@rdname`
/// unless the author gave them, the author's tags, `@source`, the imports of
/// the class system, and `@export` unless the class is internal, not
/// exported or undocumented (`@noRd` leaves only the author's tags).
pub struct ClassDocBuilder<'a> {
    /// The R class name.
    pub class_name: &'a str,
    /// The Rust type, named by `@source`.
    pub type_ident: &'a str,
    /// The author's roxygen tags.
    pub doc_tags: &'a [String],
    /// The class system, for the generated title (`R6`, `S3`, `Env`, ...).
    pub class_system_label: &'a str,
    /// The import tag of the class system (`@importFrom R6 R6Class`).
    pub imports: Option<String>,
    /// `internal`: adds `@keywords internal`, no `@export`.
    pub attr_internal: bool,
    /// `noexport`: no `@export`.
    pub attr_noexport: bool,
}

/// The header lines of a class.
pub open spec fn class_doc_lines(
    class_name: Seq<char>,
    type_ident: Seq<char>,
    tags: Seq<Seq<char>>,
    label: Seq<char>,
    imports: Option<Seq<char>>,
    attr_internal: bool,
    attr_noexport: bool,
) -> Seq<Seq<char>> {
    let no_rd = has_tag(tags, "noRd"@);
    let has_internal = has_tag(tags, "keywords internal"@);
    line_if(!has_tag(tags, "title"@) && !no_rd, "#' @title "@ + class_name + " "@ + label + " Class"@)
        + line_if(!has_tag(tags, "name"@) && !no_rd, "#' @name "@ + class_name)
        + line_if(!has_tag(tags, "rdname"@) && !no_rd, "#' @rdname "@ + class_name)
        + comment_lines(tags)
        + line_if(!no_rd, "#' @source Generated by miniextendr from Rust type `"@ + type_ident + "`"@)
        + (match imports {
            Some(i) => line_if(!no_rd, "#' "@ + i),
            None => Seq::empty(),
        })
        + line_if(attr_internal && !has_internal && !no_rd, "#' @keywords internal"@)
        + line_if(
            !has_tag(tags, "export"@) && !no_rd && !(has_internal || attr_internal) && !attr_noexport,
            "#' @export"@,
        )
}

fn push_line_if(out: &mut Vec<String>, b: bool, l: String)
    ensures
        views(final(out)@) == views(old(out)@) + line_if(b, l@),
{
    let ghost before = views(out@);
    if b {
        push_string(out, l);
    }
    assert(views(out@) =~= before + line_if(b, l@));
}

impl<'a> ClassDocBuilder<'a> {
    /// A header for `class_name` of the Rust type `type_ident`, exported,
    /// with no imports.
    pub fn new(class_name: &'a str, type_ident: &'a str, doc_tags: &'a [String], class_system_label: &'a str) -> (r:
        Self)
        ensures
            r.class_name == class_name,
            r.type_ident == type_ident,
            r.doc_tags == doc_tags,
            r.class_system_label == class_system_label,
            r.imports is None,
            !r.attr_internal,
            !r.attr_noexport,
    {
        ClassDocBuilder {
            class_name,
            type_ident,
            doc_tags,
            class_system_label,
            imports: None,
            attr_internal: false,
            attr_noexport: false,
        }
    }

    /// Add the import tag of the class system.
    pub fn with_imports(self, imports: &str) -> (r: Self)
        ensures
            r.imports matches Some(i) && i@ == imports@,
            r.class_name == self.class_name,
            r.type_ident == self.type_ident,
            r.doc_tags == self.doc_tags,
            r.class_system_label == self.class_system_label,
            r.attr_internal == self.attr_internal,
            r.attr_noexport == self.attr_noexport,
    {
        ClassDocBuilder { imports: Some(owned(imports)), ..self }
    }

    /// Set the `internal` and `noexport` flags of the impl block.
    pub fn with_export_control(self, internal: bool, noexport: bool) -> (r: Self)
        ensures
            r.attr_internal == internal,
            r.attr_noexport == noexport,
            r.class_name == self.class_name,
            r.type_ident == self.type_ident,
            r.doc_tags == self.doc_tags,
            r.class_system_label == self.class_system_label,
            r.imports == self.imports,
    {
        ClassDocBuilder { attr_internal: internal, attr_noexport: noexport, ..self }
    }

    /// The header lines.
    pub fn build(&self) -> (r: Vec<String>)
        ensures
            views(r@) == class_doc_lines(
                self.class_name@,
                self.type_ident@,
                views(self.doc_tags@),
                self.class_system_label@,
                opt_view(self.imports),
                self.attr_internal,
                self.attr_noexport,
            ),
    {
        let tags = self.doc_tags;
        let has_title = has_roxygen_tag(tags, "title");
        let has_name = has_roxygen_tag(tags, "name");
        let has_rdname = has_roxygen_tag(tags, "rdname");
        let has_export = has_roxygen_tag(tags, "export");
        let no_rd = has_roxygen_tag(tags, "noRd");
        let has_internal = has_roxygen_tag(tags, "keywords internal");
        let cn = self.class_name;
        let mut lines: Vec<String> = Vec::new();
        let title = concat5("#' @title ", cn, " ", self.class_system_label, " Class");
        push_line_if(&mut lines, !has_title && !no_rd, title);
        push_line_if(&mut lines, !has_name && !no_rd, concat2("#' @name ", cn));
        push_line_if(&mut lines, !has_rdname && !no_rd, concat2("#' @rdname ", cn));
        push_roxygen_tags(&mut lines, tags);
        let source = concat3("#' @source Generated by miniextendr from Rust type `", self.type_ident, "`");
        push_line_if(&mut lines, !no_rd, source);
        let ghost before_imports = views(lines@);
        match &self.imports {
            Some(i) => push_line_if(&mut lines, !no_rd, concat2("#' ", i.as_str())),
            None => {},
        }
        push_line_if(&mut lines, self.attr_internal && !has_internal && !no_rd, owned("#' @keywords internal"));
        let export = !has_export && !no_rd && !(has_internal || self.attr_internal) && !self.attr_noexport;
        push_line_if(&mut lines, export, owned("#' @export"));
        lines
    }
}


// ---------------------------------------------------------------------------
// Method documentation
// ---------------------------------------------------------------------------

/// The roxygen lines of one method of a class. Methods share the class's
/// `@rdname`, so they land on its page; under a class `@noRd` a method gets
/// `@noRd` alone.
pub struct MethodDocBuilder<'a> {
    /// The R class name.
    pub class_name: &'a str,
    /// The Rust method name.
    pub method_name: &'a str,
    /// The Rust type, named by `@source`.
    pub type_ident: &'a str,
    /// The author's roxygen tags of the method.
    pub doc_tags: &'a [String],
    /// The separator of `Class<sep>method` in `@name` (`$`), if any.
    pub name_prefix: Option<&'a str>,
    /// The `@name` when the R function is not named after the method.
    pub r_name_override: Option<String>,
    /// Whether the method gets `@export` of its own.
    pub always_export: bool,
    /// Whether the class has `@noRd`.
    pub class_has_no_rd: bool,
    /// Whether `@param` tags become a `\describe{}` block (env classes, whose
    /// `Class$method <- function()` gives roxygen2 no usage to match).
    pub params_as_details: bool,
    /// The method's R formals (`a, b = 1`), for `@param` lines of the
    /// undocumented parameters.
    pub r_params: Option<&'a str>,
    /// Whether the author's `@param` tags are dropped (S4 and S7 methods).
    pub suppress_params: bool,
    /// The `@param` placeholders of the `match_arg` parameters, by R name.
    pub match_arg_doc_placeholders: Option<&'a Vec<(String, String)>>,
}

/// Whether a tag line is a `@param` entry (`@param x ...`).
pub open spec fn is_param_entry(t: Seq<char>) -> bool {
    starts_with(trim_start(t), "@param "@)
}

/// Whether a tag line starts with `@param` (`@param`, `@params`, ...).
pub open spec fn starts_param(t: Seq<char>) -> bool {
    starts_with(trim_start(t), "@param"@)
}

/// Which tags a filter keeps.
pub enum TagSelect {
    /// The `@param` entries.
    Params,
    /// The tags that are not `@param` entries.
    NonParams,
    /// The tags that do not start with `@param`.
    NoParamTags,
}

/// Whether the filter `sel` keeps the tag line `t`.
pub open spec fn selected(sel: TagSelect, t: Seq<char>) -> bool {
    match sel {
        TagSelect::Params => is_param_entry(t),
        TagSelect::NonParams => !is_param_entry(t),
        TagSelect::NoParamTags => !starts_param(t),
    }
}

/// The tags among the first `n` that the filter keeps, in order.
pub open spec fn select_tags(tags: Seq<Seq<char>>, sel: TagSelect, n: int) -> Seq<Seq<char>>
    decreases n,
{
    if n <= 0 {
        Seq::empty()
    } else {
        let prev = select_tags(tags, sel, n - 1);
        if selected(sel, tags[n - 1]) {
            prev.push(tags[n - 1])
        } else {
            prev
        }
    }
}

/// The `\item{}` line of a `@param` entry: its name, then the text after the
/// first whitespace character following the name.
pub open spec fn describe_item(t: Seq<char>) -> Seq<char> {
    let split = tag_split(trim_start(t).skip(7));
    "#'   \\item{\\code{"@ + split.0 + "}}{"@ + (match split.1 {
        Some(d) => d,
        None => Seq::empty(),
    }) + "}"@
}

/// The tag lines of an env-class method: the other tags, then the `@param`
/// entries as a `\describe{}` block (after a blank `#'` unless the last line
/// holds `@title`, which the blank line would extend).
pub open spec fn details_lines(tags: Seq<Seq<char>>) -> Seq<Seq<char>> {
    let others = comment_lines(select_tags(tags, TagSelect::NonParams, tags.len() as int));
    let params = select_tags(tags, TagSelect::Params, tags.len() as int);
    others + if params.len() == 0 {
        Seq::empty()
    } else {
        line_if(!(others.len() > 0 && contains_sub(others.last(), "@title"@)), "#'"@) + seq!["#' \\describe{"@]
            + params.map_values(|t: Seq<char>| describe_item(t)) + seq!["#' }"@]
    }
}

/// The author's tags as the method's lines.
pub open spec fn method_tag_lines(tags: Seq<Seq<char>>, params_as_details: bool, suppress_params: bool) -> Seq<
    Seq<char>,
> {
    if tags.len() == 0 {
        Seq::empty()
    } else if params_as_details {
        details_lines(tags)
    } else if suppress_params {
        comment_lines(select_tags(tags, TagSelect::NoParamTags, tags.len() as int))
    } else {
        comment_lines(tags)
    }
}

/// The name of a formal (`b` for `b = 1`), trimmed.
pub open spec fn formal_name(piece: Seq<char>) -> Seq<char> {
    trim(
        match find_char(piece, '=') {
            Some(i) => piece.take(i),
            None => piece,
        },
    )
}

/// Whether a tag line documents `name` (`@param name...`).
pub open spec fn documents(tags: Seq<Seq<char>>, name: Seq<char>) -> bool {
    exists|i: int| 0 <= i < tags.len() && starts_with(#[trigger] tags[i], "@param "@ + name)
}

/// The generated `@param` line of one formal, if it needs one: not the
/// receiver (`self`, `.ptr`) or the dots, and not documented by the author.
pub open spec fn auto_param_line(tags: Seq<Seq<char>>, piece: Seq<char>, ph: Option<Seq<(String, String)>>) -> Option<
    Seq<char>,
> {
    let name = formal_name(piece);
    if piece.len() == 0 || name == ".ptr"@ || name == "..."@ || name == "self"@ || documents(tags, name) {
        None
    } else {
        Some(
            "#' @param "@ + name + " "@ + match ph {
                Some(m) => match lookup(m, name) {
                    Some(v) => v,
                    None => "(undocumented)"@,
                },
                None => "(undocumented)"@,
            },
        )
    }
}

/// The generated `@param` lines of the first `n` formals.
pub open spec fn auto_param_lines(
    tags: Seq<Seq<char>>,
    pieces: Seq<Seq<char>>,
    ph: Option<Seq<(String, String)>>,
    n: int,
) -> Seq<Seq<char>>
    decreases n,
{
    if n <= 0 {
        Seq::empty()
    } else {
        let prev = auto_param_lines(tags, pieces, ph, n - 1);
        match auto_param_line(tags, pieces[n - 1], ph) {
            Some(l) => prev.push(l),
            None => prev,
        }
    }
}

/// The placeholders map as a plain list, if there is one.
pub open spec fn placeholders_view(m: Option<&Vec<(String, String)>>) -> Option<Seq<(String, String)>> {
    match m {
        Some(v) => Some(v@),
        None => None,
    }
}

impl<'a> MethodDocBuilder<'a> {
    /// The `@name` of the method.
    pub open spec fn topic_name(&self) -> Seq<char> {
        match self.r_name_override {
            Some(r) => r@,
            None => match self.name_prefix {
                Some(p) => self.class_name@ + p@ + self.method_name@,
                None => self.method_name@,
            },
        }
    }

    /// The lines the builder writes.
    pub open spec fn spec_lines(&self) -> Seq<Seq<char>> {
        let tags = views(self.doc_tags@);
        if self.class_has_no_rd {
            seq!["#' @noRd"@]
        } else {
            method_tag_lines(tags, self.params_as_details, self.suppress_params) + (match self.r_params {
                Some(p) => auto_param_lines(
                    tags,
                    split_comma_space(p@),
                    placeholders_view(self.match_arg_doc_placeholders),
                    split_comma_space(p@).len() as int,
                ),
                None => Seq::empty(),
            }) + line_if(!has_tag(tags, "name"@), "#' @name "@ + self.topic_name()) + line_if(
                !has_tag(tags, "rdname"@),
                "#' @rdname "@ + self.class_name@,
            ) + seq!["#' @source Generated by miniextendr from `"@ + self.type_ident@ + "::"@ + self.method_name@ + "`"@]
                + line_if(
                self.always_export && !has_tag(tags, "export"@) && !has_tag(tags, "noRd"@) && !has_tag(
                    tags,
                    "keywords internal"@,
                ),
                "#' @export"@,
            )
        }
    }

    /// The lines of `method_name` of `class_name`, not exported by itself.
    pub fn new(class_name: &'a str, method_name: &'a str, type_ident: &'a str, doc_tags: &'a [String]) -> (r: Self)
        ensures
            r == (MethodDocBuilder {
                class_name,
                method_name,
                type_ident,
                doc_tags,
                name_prefix: None,
                r_name_override: None,
                always_export: false,
                class_has_no_rd: false,
                params_as_details: false,
                r_params: None,
                suppress_params: false,
                match_arg_doc_placeholders: None,
            }),
    {
        MethodDocBuilder {
            class_name,
            method_name,
            type_ident,
            doc_tags,
            name_prefix: None,
            r_name_override: None,
            always_export: false,
            class_has_no_rd: false,
            params_as_details: false,
            r_params: None,
            suppress_params: false,
            match_arg_doc_placeholders: None,
        }
    }

    /// Use these `@param` placeholders for undocumented `match_arg` formals.
    pub fn with_match_arg_doc_placeholders(self, placeholders: &'a Vec<(String, String)>) -> (r: Self)
        ensures
            r == (MethodDocBuilder { match_arg_doc_placeholders: Some(placeholders), ..self }),
    {
        MethodDocBuilder { match_arg_doc_placeholders: Some(placeholders), ..self }
    }

    /// Name the topic `Class<prefix>method` (`Counter$inc`).
    pub fn with_name_prefix(self, prefix: &'a str) -> (r: Self)
        ensures
            r == (MethodDocBuilder { name_prefix: Some(prefix), ..self }),
    {
        MethodDocBuilder { name_prefix: Some(prefix), ..self }
    }

    /// Name the topic after the R function `r_name`.
    pub fn with_r_name(self, r_name: String) -> (r: Self)
        ensures
            r == (MethodDocBuilder { r_name_override: Some(r_name), ..self }),
    {
        MethodDocBuilder { r_name_override: Some(r_name), ..self }
    }

    /// Whether the class has `@noRd`.
    pub fn with_class_no_rd(self, class_has_no_rd: bool) -> (r: Self)
        ensures
            r == (MethodDocBuilder { class_has_no_rd, ..self }),
    {
        MethodDocBuilder { class_has_no_rd, ..self }
    }

    /// Write the `@param` tags as a `\describe{}` block.
    pub fn with_params_as_details(self) -> (r: Self)
        ensures
            r == (MethodDocBuilder { params_as_details: true, ..self }),
    {
        MethodDocBuilder { params_as_details: true, ..self }
    }

    /// Generate `@param` lines for the undocumented formals of `params`.
    pub fn with_r_params(self, params: &'a str) -> (r: Self)
        ensures
            r == (MethodDocBuilder { r_params: Some(params), ..self }),
    {
        MethodDocBuilder { r_params: Some(params), ..self }
    }

    /// Drop the author's `@param` tags.
    pub fn with_suppress_params(self) -> (r: Self)
        ensures
            r == (MethodDocBuilder { suppress_params: true, ..self }),
    {
        MethodDocBuilder { suppress_params: true, ..self }
    }
}

/// Every tag a filter keeps is one it selects.
proof fn lemma_select_tags(tags: Seq<Seq<char>>, sel: TagSelect, n: int)
    ensures
        forall|j: int| 0 <= j < select_tags(tags, sel, n).len() ==> selected(sel, #[trigger] select_tags(tags, sel, n)[j]),
    decreases n,
{
    if n > 0 {
        lemma_select_tags(tags, sel, n - 1);
        let prev = select_tags(tags, sel, n - 1);
        assert forall|j: int| 0 <= j < select_tags(tags, sel, n).len() implies selected(
            sel,
            #[trigger] select_tags(tags, sel, n)[j],
        ) by {
            if j < prev.len() {
                assert(select_tags(tags, sel, n)[j] == prev[j]);
            }
        }
    }
}

proof fn lemma_param_literal()
    ensures
        "@param "@.len() == 7,
{
    reveal_strlit("@param ");
}

fn is_param_entry_str(t: &str) -> (r: bool)
    ensures
        r == is_param_entry(t@),
{
    str_starts_with(str_trim_start(t), "@param ")
}

fn select_tag_list(tags: &[String], sel: &TagSelect) -> (r: Vec<String>)
    ensures
        views(r@) == select_tags(views(tags@), *sel, tags@.len() as int),
{
    let mut out: Vec<String> = Vec::new();
    let mut i: usize = 0;
    while i < tags.len()
        invariant
            i <= tags@.len(),
            views(out@) == select_tags(views(tags@), *sel, i as int),
        decreases tags@.len() - i,
    {
        let t = tags[i].as_str();
        let keep = match sel {
            TagSelect::Params => is_param_entry_str(t),
            TagSelect::NonParams => !is_param_entry_str(t),
            TagSelect::NoParamTags => !str_starts_with(str_trim_start(t), "@param"),
        };
        proof {
            assert(views(tags@)[i as int] == t@);
        }
        if keep {
            push_string(&mut out, tags[i].clone());
        }
        i = i + 1;
    }
    out
}

fn describe_item_line(t: &str) -> (r: String)
    requires
        is_param_entry(t@),
    ensures
        r@ == describe_item(t@),
{
    proof {
        lemma_param_literal();
    }
    let ts = str_trim_start(t);
    let rest = ts.substring_char(7, ts.unicode_len());
    assert(rest@ =~= trim_start(t@).skip(7));
    let (name, desc) = split_tag(rest);
    let d = match desc {
        Some(d) => d,
        None => "",
    };
    proof {
        reveal_strlit("");
    }
    let l = concat5("#'   \\item{\\code{", name, "}}{", d, "}");
    l
}

fn formal_name_of(piece: &str) -> (r: &str)
    ensures
        r@ == formal_name(piece@),
{
    let head = match str_find_char(piece, '=') {
        Some(i) => piece.substring_char(0, i),
        None => piece,
    };
    proof {
        match find_char(piece@, '=') {
            Some(i) => {
                assert(head@ =~= piece@.take(i));
            },
            None => {},
        }
    }
    str_trim(head)
}

fn documents_param(tags: &[String], name: &str) -> (r: bool)
    ensures
        r == documents(views(tags@), name@),
{
    let prefix = concat2("@param ", name);
    let mut i: usize = 0;
    while i < tags.len()
        invariant
            i <= tags@.len(),
            prefix@ == "@param "@ + name@,
            forall|j: int| 0 <= j < i ==> !starts_with(#[trigger] views(tags@)[j], "@param "@ + name@),
        decreases tags@.len() - i,
    {
        proof {
            assert(views(tags@)[i as int] == tags@[i as int]@);
        }
        if str_starts_with(tags[i].as_str(), prefix.as_str()) {
            return true;
        }
        i = i + 1;
    }
    false
}

impl<'a> MethodDocBuilder<'a> {
    fn push_details(&self, lines: &mut Vec<String>)
        requires
            old(lines)@.len() == 0,
        ensures
            views(final(lines)@) == details_lines(views(self.doc_tags@)),
    {
        let tags = self.doc_tags;
        let others = select_tag_list(tags, &TagSelect::NonParams);
        let params = select_tag_list(tags, &TagSelect::Params);
        push_roxygen_tags(lines, others.as_slice());
        assert(views(lines@) =~= comment_lines(views(others@)));
        proof {
            lemma_select_tags(views(tags@), TagSelect::Params, tags@.len() as int);
        }
        if params.len() > 0 {
            let n = lines.len();
            let last_is_title = n > 0 && str_contains(lines[n - 1].as_str(), "@title");
            proof {
                if n > 0 {
                    assert(views(lines@).last() == lines@[n - 1]@);
                }
            }
            push_line_if(lines, !last_is_title, owned("#'"));
            push_string(lines, owned("#' \\describe{"));
            let ghost start = views(lines@);
            let mut i: usize = 0;
            while i < params.len()
                invariant
                    i <= params@.len(),
                    views(params@) == select_tags(views(tags@), TagSelect::Params, tags@.len() as int),
                    forall|j: int| 0 <= j < params@.len() ==> is_param_entry(#[trigger] views(params@)[j]),
                    views(lines@) == start + views(params@).take(i as int).map_values(
                        |t: Seq<char>| describe_item(t),
                    ),
                decreases params@.len() - i,
            {
                proof {
                    assert(views(params@)[i as int] == params@[i as int]@);
                }
                let l = describe_item_line(params[i].as_str());
                proof {
                    assert(views(params@).take(i + 1).map_values(|t: Seq<char>| describe_item(t)) =~= views(
                        params@,
                    ).take(i as int).map_values(|t: Seq<char>| describe_item(t)).push(l@));
                }
                push_string(lines, l);
                i = i + 1;
            }
            assert(views(params@).take(params@.len() as int) =~= views(params@));
            push_string(lines, owned("#' }"));
        }
    }

    /// The roxygen lines of the method.
    pub fn build(&self) -> (r: Vec<String>)
        ensures
            views(r@) == self.spec_lines(),
    {
        let mut lines: Vec<String> = Vec::new();
        if self.class_has_no_rd {
            push_string(&mut lines, owned("#' @noRd"));
            return lines;
        }
        let tags = self.doc_tags;
        if tags.len() > 0 {
            if self.params_as_details {
                self.push_details(&mut lines);
            } else if self.suppress_params {
                let kept = select_tag_list(tags, &TagSelect::NoParamTags);
                push_roxygen_tags(&mut lines, kept.as_slice());
            } else {
                push_roxygen_tags(&mut lines, tags);
            }
        }
        assert(views(lines@) =~= method_tag_lines(views(tags@), self.params_as_details, self.suppress_params));
        match self.r_params {
            Some(params) => {
                let pieces = split_on_comma_space(params);
                let ghost start = views(lines@);
                let ghost ph = placeholders_view(self.match_arg_doc_placeholders);
                let mut i: usize = 0;
                while i < pieces.len()
                    invariant
                        i <= pieces@.len(),
                        ph == placeholders_view(self.match_arg_doc_placeholders),
                        views(lines@) == start + auto_param_lines(views(tags@), views(pieces@), ph, i as int),
                    decreases pieces@.len() - i,
                {
                    let piece = pieces[i].as_str();
                    proof {
                        assert(views(pieces@)[i as int] == piece@);
                    }
                    if piece.unicode_len() > 0 {
                        let name = formal_name_of(piece);
                        if !(str_eq(name, ".ptr") || str_eq(name, "...") || str_eq(name, "self")) && !documents_param(
                            tags,
                            name,
                        ) {
                            let body: &str = match self.match_arg_doc_placeholders {
                                Some(m) => match lookup_pair(m, name) {
                                    Some(v) => v.as_str(),
                                    None => "(undocumented)",
                                },
                                None => "(undocumented)",
                            };
                            push_string(&mut lines, concat4("#' @param ", name, " ", body));
                        }
                    }
                    proof {
                        assert(views(lines@) =~= start + auto_param_lines(views(tags@), views(pieces@), ph, i + 1));
                    }
                    i = i + 1;
                }
            },
            None => {},
        }
        let ghost before_name = views(lines@);
        if !has_roxygen_tag(tags, "name") {
            let name = match &self.r_name_override {
                Some(r) => r.clone(),
                None => match self.name_prefix {
                    Some(p) => concat3(self.class_name, p, self.method_name),
                    None => owned(self.method_name),
                },
            };
            push_string(&mut lines, concat2("#' @name ", name.as_str()));
        }
        assert(views(lines@) =~= before_name + line_if(!has_tag(views(tags@), "name"@), "#' @name "@ + self.topic_name()));
        push_line_if(&mut lines, !has_roxygen_tag(tags, "rdname"), concat2("#' @rdname ", self.class_name));
        let source = concat5("#' @source Generated by miniextendr from `", self.type_ident, "::", self.method_name, "`");
        push_string(&mut lines, source);
        let export = self.always_export && !has_roxygen_tag(tags, "export") && !has_roxygen_tag(tags, "noRd")
            && !has_roxygen_tag(tags, "keywords internal");
        push_line_if(&mut lines, export, owned("#' @export"));
        lines
    }
}


// ---------------------------------------------------------------------------
// Laws
// ---------------------------------------------------------------------------

/// A class with `@noRd` gets no generated documentation: its header is the
/// author's tags and nothing else.
pub proof fn lemma_no_rd_header_is_author_tags(
    class_name: Seq<char>,
    type_ident: Seq<char>,
    tags: Seq<Seq<char>>,
    label: Seq<char>,
    imports: Option<Seq<char>>,
    attr_internal: bool,
    attr_noexport: bool,
)
    requires
        has_tag(tags, "noRd"@),
    ensures
        class_doc_lines(class_name, type_ident, tags, label, imports, attr_internal, attr_noexport)
            == comment_lines(tags),
{
    assert(class_doc_lines(class_name, type_ident, tags, label, imports, attr_internal, attr_noexport)
        =~= comment_lines(tags));
}

/// `internal` implies `noexport`: an internal class is never exported,
/// whether `noexport` is also given or not.
pub proof fn lemma_internal_class_not_exported(
    class_name: Seq<char>,
    type_ident: Seq<char>,
    tags: Seq<Seq<char>>,
    label: Seq<char>,
    imports: Option<Seq<char>>,
)
    ensures
        class_doc_lines(class_name, type_ident, tags, label, imports, true, false) == class_doc_lines(
            class_name,
            type_ident,
            tags,
            label,
            imports,
            true,
            true,
        ),
{
}

/// The formal default of a parameter: a `match_arg` parameter always gets
/// its choices placeholder, whatever default the author gave; otherwise the
/// author's default wins over a `choices(...)` vector.
pub proof fn lemma_effective_default_priority(m: MethodModel, c_ident: Seq<char>, r: Seq<char>)
    ensures
        match_arg_upto(m.per_param@, r, m.per_param@.len() as int) ==> effective_default(m, c_ident, r) == Some(
            choices_placeholder(c_ident, r),
        ),
        !match_arg_upto(m.per_param@, r, m.per_param@.len() as int) && lookup(m.param_defaults@, r) is Some
            ==> effective_default(m, c_ident, r) == lookup(m.param_defaults@, r),
{
}

/// A method of a class with `@noRd` gets `@noRd` and nothing else.
pub proof fn lemma_method_of_undocumented_class(b: MethodDocBuilder)
    requires
        b.class_has_no_rd,
    ensures
        b.spec_lines() == seq!["#' @noRd"@],
{
}

} // verus!
