//! Builders for the pieces of R wrapper code: R formals and `.Call()`
//! arguments from a Rust signature, the `.Call()` invocation itself, and
//! roxygen2 tag lines.
use vstd::prelude::*;
use crate::text::{concat2, concat3, join, join_strings, owned, push_string, str_eq, views};
use crate::types::{is_dots_ref, is_dots_ref_type, is_missing, is_missing_type, is_unit, is_unit_type, Param};

verus! {

// ---------------------------------------------------------------------------
// Argument names
// ---------------------------------------------------------------------------

/// `s` without its leading underscores.
pub open spec fn strip_underscores(s: Seq<char>) -> Seq<char>
    decreases s.len(),
{
    if s.len() > 0 && s[0] == '_' {
        strip_underscores(s.drop_first())
    } else {
        s
    }
}

/// The R name of a Rust argument: leading underscores stripped, and `arg`
/// when nothing is left.
pub open spec fn r_arg_name(s: Seq<char>) -> Seq<char> {
    let t = strip_underscores(s);
    if t.len() == 0 {
        "arg"@
    } else {
        t
    }
}

proof fn lemma_strip_underscores_at(s: Seq<char>, k: int)
    requires
        0 <= k <= s.len(),
        forall|j: int| 0 <= j < k ==> #[trigger] s[j] == '_',
        k == s.len() || s[k] != '_',
    ensures
        strip_underscores(s) == s.subrange(k, s.len() as int),
    decreases k,
{
    if k == 0 {
        assert(s.subrange(0, s.len() as int) =~= s);
    } else {
        let t = s.drop_first();
        assert forall|j: int| 0 <= j < k - 1 implies #[trigger] t[j] == '_' by {
            assert(t[j] == s[j + 1]);
        }
        lemma_strip_underscores_at(t, k - 1);
        assert(t.subrange(k - 1, t.len() as int) =~= s.subrange(k, s.len() as int));
    }
}

/// Normalize a Rust argument name for R: leading `_` are stripped (the Rust
/// convention for unused parameters), and a name of only underscores becomes
/// `arg`. `_x` → `x`, `__field` → `field`, `value` → `value`.
pub fn normalize_r_arg_string(name: &str) -> (r: String)
    ensures
        r@ == r_arg_name(name@),
{
    let n = name.unicode_len();
    let mut k: usize = 0;
    while k < n && name.get_char(k) == '_'
        invariant
            n == name@.len(),
            k <= n,
            forall|j: int| 0 <= j < k ==> #[trigger] name@[j] == '_',
        decreases n - k,
    {
        k = k + 1;
    }
    proof {
        lemma_strip_underscores_at(name@, k as int);
    }
    if k == n {
        owned("arg")
    } else {
        owned(name.substring_char(k, n))
    }
}

// ---------------------------------------------------------------------------
// RArgumentBuilder
// ---------------------------------------------------------------------------

/// The value bound to `key` in an association list (the first binding).
pub open spec fn lookup(pairs: Seq<(String, String)>, key: Seq<char>) -> Option<Seq<char>>
    decreases pairs.len(),
{
    if pairs.len() == 0 {
        None
    } else if pairs[0].0@ == key {
        Some(pairs[0].1@)
    } else {
        lookup(pairs.drop_first(), key)
    }
}

/// Appending a binding changes a lookup only where the key was unbound.
pub proof fn lemma_lookup_push(pairs: Seq<(String, String)>, p: (String, String), key: Seq<char>)
    ensures
        lookup(pairs.push(p), key) == match lookup(pairs, key) {
            Some(v) => Some(v),
            None => if p.0@ == key {
                Some(p.1@)
            } else {
                None
            },
        },
    decreases pairs.len(),
{
    assert(pairs.push(p)[0] == if pairs.len() > 0 {
        pairs[0]
    } else {
        p
    });
    if pairs.len() > 0 {
        assert(pairs.push(p).drop_first() =~= pairs.drop_first().push(p));
        lemma_lookup_push(pairs.drop_first(), p, key);
    } else {
        assert(pairs.push(p).drop_first() =~= Seq::<(String, String)>::empty());
        assert(lookup(Seq::<(String, String)>::empty(), key) is None);
        assert(lookup(pairs, key) is None);
    }
}

/// An association list as a function from key to value.
pub open spec fn lookup_fn(pairs: Seq<(String, String)>) -> spec_fn(Seq<char>) -> Option<Seq<char>> {
    |k: Seq<char>| lookup(pairs, k)
}

/// Look up `key` in an association list.
pub fn lookup_pair<'a>(pairs: &'a Vec<(String, String)>, key: &str) -> (r: Option<&'a String>)
    ensures
        match r {
            Some(v) => lookup(pairs@, key@) == Some(v@),
            None => lookup(pairs@, key@) is None,
        },
{
    let mut i: usize = 0;
    assert(pairs@.skip(0) =~= pairs@);
    while i < pairs.len()
        invariant
            i <= pairs.len(),
            lookup(pairs@, key@) == lookup(pairs@.skip(i as int), key@),
        decreases pairs.len() - i,
    {
        proof {
            assert(pairs@.skip(i as int).drop_first() =~= pairs@.skip(i + 1));
        }
        if str_eq(pairs[i].0.as_str(), key) {
            return Some(&pairs[i].1);
        }
        i = i + 1;
    }
    None
}

/// Builder for R function formals and `.Call()` arguments from the
/// parameters of a Rust signature.
///
/// Leading underscores of argument names are stripped, a unit-typed
/// parameter gets `= NULL`, a trailing dots parameter becomes `...`, and a
/// `Missing<T>` argument is forwarded as R's missing-argument sentinel.
pub struct RArgumentBuilder<'a> {
    /// The parameters of the signature, in order.
    pub inputs: &'a [Param],
    /// Whether the last parameter is the dots (`...`).
    pub has_dots: bool,
    /// The normalized Rust-side name of the dots binding, if named.
    pub named_dots: Option<String>,
    /// Whether the first parameter is skipped (the receiver of a method).
    pub skip_first: bool,
    /// Default values of parameters, keyed by R name (first binding wins).
    pub defaults: Vec<(String, String)>,
}

/// Whether the parameter at `idx` is the dots parameter: the last one, when
/// the builder was told so or its type is `&Dots`.
pub open spec fn is_dots_slot(inputs: Seq<Param>, has_dots: bool, idx: int) -> bool {
    idx == inputs.len() - 1 && (has_dots || match inputs[idx] {
        Param::Typed { ty, .. } => is_dots_ref(ty),
        Param::Receiver => false,
    })
}

/// The R formal that the parameter at `idx` contributes, if any.
pub open spec fn formal_piece(
    inputs: Seq<Param>,
    has_dots: bool,
    skip_first: bool,
    defaults: spec_fn(Seq<char>) -> Option<Seq<char>>,
    idx: int,
) -> Option<Seq<char>> {
    if skip_first && idx == 0 {
        None
    } else {
        match inputs[idx] {
            Param::Receiver => None,
            Param::Typed { name, ty } => if is_dots_slot(inputs, has_dots, idx) {
                Some("..."@)
            } else {
                match name {
                    None => None,
                    Some(n) => {
                        let r = r_arg_name(n@);
                        match defaults(r) {
                            Some(d) => Some(r + " = "@ + d),
                            None => if is_unit(ty) {
                                Some(r + " = NULL"@)
                            } else {
                                Some(r)
                            },
                        }
                    },
                }
            },
        }
    }
}

/// The `.Call()` argument that the parameter at `idx` contributes, if any.
pub open spec fn call_arg_piece(inputs: Seq<Param>, has_dots: bool, skip_first: bool, idx: int) -> Option<Seq<char>> {
    if skip_first && idx == 0 {
        None
    } else {
        match inputs[idx] {
            Param::Receiver => None,
            Param::Typed { name, ty } => if is_dots_slot(inputs, has_dots, idx) {
                Some("list(...)"@)
            } else {
                match name {
                    None => None,
                    Some(n) => {
                        let r = r_arg_name(n@);
                        if is_missing(ty) {
                            Some("if (missing("@ + r + ")) quote(expr=) else "@ + r)
                        } else {
                            Some(r)
                        }
                    },
                }
            },
        }
    }
}

/// The pieces contributed by the first `n` parameters.
pub open spec fn formal_pieces(
    inputs: Seq<Param>,
    has_dots: bool,
    skip_first: bool,
    defaults: spec_fn(Seq<char>) -> Option<Seq<char>>,
    n: int,
) -> Seq<Seq<char>>
    decreases n,
{
    if n <= 0 {
        Seq::empty()
    } else {
        let prev = formal_pieces(inputs, has_dots, skip_first, defaults, n - 1);
        match formal_piece(inputs, has_dots, skip_first, defaults, n - 1) {
            Some(p) => prev.push(p),
            None => prev,
        }
    }
}

/// The `.Call()` arguments contributed by the first `n` parameters.
pub open spec fn call_arg_pieces(inputs: Seq<Param>, has_dots: bool, skip_first: bool, n: int) -> Seq<Seq<char>>
    decreases n,
{
    if n <= 0 {
        Seq::empty()
    } else {
        let prev = call_arg_pieces(inputs, has_dots, skip_first, n - 1);
        match call_arg_piece(inputs, has_dots, skip_first, n - 1) {
            Some(p) => prev.push(p),
            None => prev,
        }
    }
}

impl<'a> RArgumentBuilder<'a> {
    /// The R formals of the signature, pieces in parameter order.
    pub open spec fn spec_formals(&self) -> Seq<Seq<char>> {
        formal_pieces(self.inputs@, self.has_dots, self.skip_first, lookup_fn(self.defaults@), self.inputs@.len() as int)
    }

    /// The `.Call()` arguments of the signature, in parameter order.
    pub open spec fn spec_call_args(&self) -> Seq<Seq<char>> {
        call_arg_pieces(self.inputs@, self.has_dots, self.skip_first, self.inputs@.len() as int)
    }

    /// A builder for the given parameters: no dots, no skipped parameter, no
    /// defaults.
    pub fn new(inputs: &'a [Param]) -> (r: Self)
        ensures
            r.inputs@ == inputs@,
            !r.has_dots,
            r.named_dots is None,
            !r.skip_first,
            r.defaults@.len() == 0,
    {
        RArgumentBuilder { inputs, has_dots: false, named_dots: None, skip_first: false, defaults: Vec::new() }
    }

    /// Use these parameter defaults (R name → R default expression).
    pub fn with_defaults(self, defaults: Vec<(String, String)>) -> (r: Self)
        ensures
            r.inputs@ == self.inputs@,
            r.has_dots == self.has_dots,
            r.named_dots == self.named_dots,
            r.skip_first == self.skip_first,
            r.defaults@ == defaults@,
    {
        RArgumentBuilder { defaults, ..self }
    }

    /// Mark the last parameter as the dots, optionally naming its Rust-side
    /// binding (the name is normalized; R formals always say plain `...`).
    pub fn with_dots(self, named_dots: Option<&str>) -> (r: Self)
        ensures
            r.inputs@ == self.inputs@,
            r.has_dots,
            match named_dots {
                Some(n) => r.named_dots matches Some(m) && m@ == r_arg_name(n@),
                None => r.named_dots is None,
            },
            r.skip_first == self.skip_first,
            r.defaults@ == self.defaults@,
    {
        let named = match named_dots {
            Some(n) => Some(normalize_r_arg_string(n)),
            None => None,
        };
        RArgumentBuilder { has_dots: true, named_dots: named, ..self }
    }

    /// Skip the first parameter (the receiver of an instance method).
    pub fn skip_first(self) -> (r: Self)
        ensures
            r.inputs@ == self.inputs@,
            r.has_dots == self.has_dots,
            r.named_dots == self.named_dots,
            r.skip_first,
            r.defaults@ == self.defaults@,
    {
        RArgumentBuilder { skip_first: true, ..self }
    }

    fn dots_slot(&self, idx: usize) -> (r: bool)
        requires
            idx < self.inputs@.len(),
        ensures
            r == is_dots_slot(self.inputs@, self.has_dots, idx as int),
    {
        if idx != self.inputs.len() - 1 {
            return false;
        }
        if self.has_dots {
            return true;
        }
        match &self.inputs[idx] {
            Param::Typed { ty, .. } => is_dots_ref_type(ty),
            Param::Receiver => false,
        }
    }

    /// The R formals as separate pieces (`x`, `y = NULL`, `...`).
    pub fn build_formals_vec(&self) -> (r: Vec<String>)
        ensures
            views(r@) == self.spec_formals(),
    {
        let mut out: Vec<String> = Vec::new();
        let mut idx: usize = 0;
        while idx < self.inputs.len()
            invariant
                idx <= self.inputs@.len(),
                views(out@) == formal_pieces(self.inputs@, self.has_dots, self.skip_first, lookup_fn(self.defaults@), idx as int),
            decreases self.inputs@.len() - idx,
        {
            let ghost before = out@;
            let piece: Option<String> = if self.skip_first && idx == 0 {
                None
            } else {
                match &self.inputs[idx] {
                    Param::Receiver => None,
                    Param::Typed { name, ty } => {
                        if self.dots_slot(idx) {
                            Some(owned("..."))
                        } else {
                            match name {
                                None => None,
                                Some(n) => {
                                    let r = normalize_r_arg_string(n.as_str());
                                    match lookup_pair(&self.defaults, r.as_str()) {
                                        Some(d) => Some(concat3(r.as_str(), " = ", d.as_str())),
                                        None => {
                                            if is_unit_type(ty) {
                                                Some(concat2(r.as_str(), " = NULL"))
                                            } else {
                                                Some(r)
                                            }
                                        },
                                    }
                                },
                            }
                        }
                    },
                }
            };
            match piece {
                Some(p) => {
                    out.push(p);
                },
                None => {},
            }
            proof {
                assert(views(out@) =~= formal_pieces(self.inputs@, self.has_dots, self.skip_first, lookup_fn(self.defaults@), idx + 1));
            }
            idx = idx + 1;
        }
        out
    }

    /// The R formals, comma-separated (`"x, y = NULL, ..."`).
    pub fn build_formals(&self) -> (r: String)
        ensures
            r@ == join(self.spec_formals(), ", "@),
    {
        let pieces = self.build_formals_vec();
        join_strings(&pieces, ", ")
    }

    /// The `.Call()` arguments as separate pieces.
    pub fn build_call_args_vec(&self) -> (r: Vec<String>)
        ensures
            views(r@) == self.spec_call_args(),
    {
        let mut out: Vec<String> = Vec::new();
        let mut idx: usize = 0;
        while idx < self.inputs.len()
            invariant
                idx <= self.inputs@.len(),
                views(out@) == call_arg_pieces(self.inputs@, self.has_dots, self.skip_first, idx as int),
            decreases self.inputs@.len() - idx,
        {
            let piece: Option<String> = if self.skip_first && idx == 0 {
                None
            } else {
                match &self.inputs[idx] {
                    Param::Receiver => None,
                    Param::Typed { name, ty } => {
                        if self.dots_slot(idx) {
                            Some(owned("list(...)"))
                        } else {
                            match name {
                                None => None,
                                Some(n) => {
                                    let r = normalize_r_arg_string(n.as_str());
                                    if is_missing_type(ty) {
                                        Some(crate::text::concat4("if (missing(", r.as_str(), ")) quote(expr=) else ", r.as_str()))
                                    } else {
                                        Some(r)
                                    }
                                },
                            }
                        }
                    },
                }
            };
            match piece {
                Some(p) => {
                    out.push(p);
                },
                None => {},
            }
            proof {
                assert(views(out@) =~= call_arg_pieces(self.inputs@, self.has_dots, self.skip_first, idx + 1));
            }
            idx = idx + 1;
        }
        out
    }

    /// The `.Call()` arguments, comma-separated (`"x, y, list(...)"`).
    pub fn build_call_args(&self) -> (r: String)
        ensures
            r@ == join(self.spec_call_args(), ", "@),
    {
        let pieces = self.build_call_args_vec();
        join_strings(&pieces, ", ")
    }
}

/// Whether the first parameter is a receiver.
pub open spec fn starts_with_receiver(inputs: Seq<Param>) -> bool {
    inputs.len() > 0 && inputs[0] is Receiver
}

fn first_is_receiver(inputs: &[Param]) -> (r: bool)
    ensures
        r == starts_with_receiver(inputs@),
{
    inputs.len() > 0 && match &inputs[0] {
        Param::Receiver => true,
        _ => false,
    }
}

/// The R formals of a signature, skipping a leading receiver, with defaults.
pub fn build_r_formals_from_sig(inputs: &[Param], defaults: Vec<(String, String)>) -> (r: String)
    ensures
        r@ == join(formal_pieces(inputs@, false, starts_with_receiver(inputs@), lookup_fn(defaults@), inputs@.len() as int), ", "@),
{
    let mut builder = RArgumentBuilder::new(inputs);
    if first_is_receiver(inputs) {
        builder = builder.skip_first();
    }
    builder = builder.with_defaults(defaults);
    builder.build_formals()
}

/// The `.Call()` arguments of a signature, skipping a leading receiver.
pub fn build_r_call_args_from_sig(inputs: &[Param]) -> (r: String)
    ensures
        r@ == join(call_arg_pieces(inputs@, false, starts_with_receiver(inputs@), inputs@.len() as int), ", "@),
{
    let mut builder = RArgumentBuilder::new(inputs);
    if first_is_receiver(inputs) {
        builder = builder.skip_first();
    }
    builder.build_call_args()
}

/// The identifier a parameter contributes to `collect_param_idents`.
pub open spec fn ident_piece(inputs: Seq<Param>, skip_first: bool, normalize: bool, idx: int) -> Option<Seq<char>> {
    if skip_first && idx == 0 {
        None
    } else {
        match inputs[idx] {
            Param::Typed { name: Some(n), .. } => Some(if normalize { r_arg_name(n@) } else { n@ }),
            _ => None,
        }
    }
}

/// The identifiers contributed by the first `n` parameters.
pub open spec fn ident_pieces(inputs: Seq<Param>, skip_first: bool, normalize: bool, n: int) -> Seq<Seq<char>>
    decreases n,
{
    if n <= 0 {
        Seq::empty()
    } else {
        let prev = ident_pieces(inputs, skip_first, normalize, n - 1);
        match ident_piece(inputs, skip_first, normalize, n - 1) {
            Some(p) => prev.push(p),
            None => prev,
        }
    }
}

/// The identifiers of the typed parameters with a plain identifier pattern,
/// optionally skipping the first parameter and normalizing for R.
pub fn collect_param_idents(inputs: &[Param], skip_first: bool, normalize: bool) -> (r: Vec<String>)
    ensures
        views(r@) == ident_pieces(inputs@, skip_first, normalize, inputs@.len() as int),
{
    let mut out: Vec<String> = Vec::new();
    let mut idx: usize = 0;
    while idx < inputs.len()
        invariant
            idx <= inputs@.len(),
            views(out@) == ident_pieces(inputs@, skip_first, normalize, idx as int),
        decreases inputs@.len() - idx,
    {
        if !(skip_first && idx == 0) {
            match &inputs[idx] {
                Param::Typed { name: Some(n), .. } => {
                    if normalize {
                        out.push(normalize_r_arg_string(n.as_str()));
                    } else {
                        out.push(n.clone());
                    }
                },
                _ => {},
            }
        }
        proof {
            assert(views(out@) =~= ident_pieces(inputs@, skip_first, normalize, idx + 1));
        }
        idx = idx + 1;
    }
    out
}

// ---------------------------------------------------------------------------
// DotCallBuilder
// ---------------------------------------------------------------------------

/// The `.call` argument of a `.Call()`: the wrapper's own matched call, or
/// `NULL` where `match.call()` would capture a dispatch frame.
pub open spec fn call_attribution_arg(null_call: bool) -> Seq<char> {
    if null_call {
        ".call = NULL"@
    } else {
        ".call = match.call()"@
    }
}

/// The text of a `.Call()` of `c_ident` with the given arguments.
pub open spec fn dot_call_text(c_ident: Seq<char>, null_call: bool, args: Seq<Seq<char>>) -> Seq<char> {
    if args.len() == 0 {
        ".Call("@ + c_ident + ", "@ + call_attribution_arg(null_call) + ")"@
    } else {
        ".Call("@ + c_ident + ", "@ + call_attribution_arg(null_call) + ", "@ + join(args, ", "@) + ")"@
    }
}

/// The views of a slice of string slices.
pub open spec fn str_views(s: Seq<&str>) -> Seq<Seq<char>> {
    s.map_values(|x: &str| x@)
}

/// Builder for `.Call()` invocations in R wrapper code:
/// `.Call(C_ident, .call = match.call(), self, args...)`.
pub struct DotCallBuilder {
    /// The C symbol called.
    pub c_ident: String,
    /// The receiver expression, passed before the other arguments.
    pub self_var: Option<String>,
    /// The other arguments, in order.
    pub args: Vec<String>,
    /// Whether `.call = NULL` is passed instead of `.call = match.call()`.
    pub null_call: bool,
}

impl DotCallBuilder {
    /// Every argument of the call: the receiver first, if any.
    pub open spec fn all_args(&self) -> Seq<Seq<char>> {
        match self.self_var {
            Some(v) => seq![v@] + views(self.args@),
            None => views(self.args@),
        }
    }

    /// A call of `c_ident` with no arguments.
    pub fn new(c_ident: &str) -> (r: Self)
        ensures
            r.c_ident@ == c_ident@,
            r.self_var is None,
            r.args@.len() == 0,
            !r.null_call,
    {
        DotCallBuilder { c_ident: owned(c_ident), self_var: None, args: Vec::new(), null_call: false }
    }

    /// Pass `var` as the receiver, before the other arguments.
    pub fn with_self(self, var: &str) -> (r: Self)
        ensures
            r.c_ident == self.c_ident,
            r.self_var matches Some(v) && v@ == var@,
            r.args == self.args,
            r.null_call == self.null_call,
    {
        DotCallBuilder { self_var: Some(owned(var)), ..self }
    }

    /// Pass these arguments after the receiver.
    pub fn with_args(self, args: &[&str]) -> (r: Self)
        ensures
            r.c_ident == self.c_ident,
            r.self_var == self.self_var,
            views(r.args@) == str_views(args@),
            r.null_call == self.null_call,
    {
        let mut v: Vec<String> = Vec::new();
        let mut i: usize = 0;
        while i < args.len()
            invariant
                i <= args@.len(),
                views(v@) == str_views(args@.take(i as int)),
            decreases args@.len() - i,
        {
            v.push(owned(args[i]));
            proof {
                assert(str_views(args@.take(i + 1)) =~= str_views(args@.take(i as int)).push(args@[i as int]@));
                assert(views(v@) =~= str_views(args@.take(i + 1)));
            }
            i = i + 1;
        }
        assert(args@.take(args@.len() as int) =~= args@);
        DotCallBuilder { args: v, ..self }
    }

    /// Pass an already comma-separated argument string after the receiver;
    /// an empty string passes no arguments.
    pub fn with_args_str(self, args: &str) -> (r: Self)
        ensures
            r.c_ident == self.c_ident,
            r.self_var == self.self_var,
            views(r.args@) == if args@.len() == 0 {
                Seq::<Seq<char>>::empty()
            } else {
                seq![args@]
            },
            r.null_call == self.null_call,
    {
        let mut v: Vec<String> = Vec::new();
        if args.unicode_len() > 0 {
            v.push(owned(args));
        }
        assert(views(v@) =~= if args@.len() == 0 {
            Seq::<Seq<char>>::empty()
        } else {
            seq![args@]
        });
        DotCallBuilder { args: v, ..self }
    }

    /// Pass `.call = NULL`: for dispatch sites (S7 property accessors,
    /// finalizers) where `match.call()` would not be the user's call.
    pub fn null_call_attribution(self) -> (r: Self)
        ensures
            r.c_ident == self.c_ident,
            r.self_var == self.self_var,
            r.args == self.args,
            r.null_call,
    {
        DotCallBuilder { null_call: true, ..self }
    }

    /// The `.Call()` text.
    pub fn build(&self) -> (r: String)
        ensures
            r@ == dot_call_text(self.c_ident@, self.null_call, self.all_args()),
    {
        let mut all: Vec<String> = Vec::new();
        match &self.self_var {
            Some(v) => {
                push_string(&mut all, v.clone());
            },
            None => {},
        }
        let ghost start = views(all@);
        let mut i: usize = 0;
        while i < self.args.len()
            invariant
                i <= self.args@.len(),
                views(all@) == start + views(self.args@.take(i as int)),
            decreases self.args@.len() - i,
        {
            push_string(&mut all, self.args[i].clone());
            proof {
                assert(views(self.args@.take(i + 1)) =~= views(self.args@.take(i as int)).push(self.args@[i as int]@));
                assert(views(all@) =~= start + views(self.args@.take(i + 1)));
            }
            i = i + 1;
        }
        proof {
            assert(self.args@.take(self.args@.len() as int) =~= self.args@);
            assert(views(all@) =~= self.all_args());
        }
        let call = if self.null_call {
            ".call = NULL"
        } else {
            ".call = match.call()"
        };
        let mut out = owned(".Call(");
        out.append(self.c_ident.as_str());
        out.append(", ");
        out.append(call);
        if all.len() > 0 {
            out.append(", ");
            let joined = join_strings(&all, ", ");
            out.append(joined.as_str());
        }
        out.append(")");
        out
    }
}

// ---------------------------------------------------------------------------
// RoxygenBuilder
// ---------------------------------------------------------------------------

/// One tag line for an optional value.
pub open spec fn opt_line(v: Option<String>, lead: Seq<char>) -> Seq<Seq<char>> {
    match v {
        Some(x) => seq![lead + x@],
        None => Seq::empty(),
    }
}

/// The custom tag lines, each behind `#' `.
pub open spec fn custom_lines(tags: Seq<String>) -> Seq<Seq<char>> {
    tags.map_values(|t: String| "#' "@ + t@)
}

/// Builder for roxygen2 tag lines (each prefixed with `#' `).
pub struct RoxygenBuilder {
    /// `@name`.
    pub name: Option<String>,
    /// `@rdname`.
    pub rdname: Option<String>,
    /// `@title`.
    pub title: Option<String>,
    /// `@description`.
    pub description: Option<String>,
    /// `@source`, written only when `source_tags` is on.
    pub source: Option<String>,
    /// `@export`.
    pub export: bool,
    /// `@exportMethod`.
    pub export_method: Option<String>,
    /// `@method generic class`.
    pub method: Option<(String, String)>,
    /// Further tag lines, without the `#' ` lead.
    pub custom_tags: Vec<String>,
    /// Whether the crate opted in to `@source` tags.
    pub source_tags: bool,
}

impl RoxygenBuilder {
    /// The lines `build` returns.
    pub open spec fn spec_lines(&self) -> Seq<Seq<char>> {
        opt_line(self.title, "#' @title "@) + opt_line(self.description, "#' @description "@)
            + opt_line(self.name, "#' @name "@) + opt_line(self.rdname, "#' @rdname "@) + (if self.source_tags {
            opt_line(self.source, "#' @source "@)
        } else {
            Seq::empty()
        }) + (match self.method {
            Some((g, c)) => seq!["#' @method "@ + g@ + " "@ + c@],
            None => Seq::empty(),
        }) + custom_lines(self.custom_tags@) + (if self.export {
            seq!["#' @export"@]
        } else {
            Seq::empty()
        }) + opt_line(self.export_method, "#' @exportMethod "@)
    }

    /// An empty builder (no tags; `@source` off).
    pub fn new() -> (r: Self)
        ensures
            r.name is None,
            r.rdname is None,
            r.title is None,
            r.description is None,
            r.source is None,
            !r.export,
            r.export_method is None,
            r.method is None,
            r.custom_tags@.len() == 0,
            !r.source_tags,
    {
        RoxygenBuilder {
            name: None,
            rdname: None,
            title: None,
            description: None,
            source: None,
            export: false,
            export_method: None,
            method: None,
            custom_tags: Vec::new(),
            source_tags: false,
        }
    }

    /// Set `@name`.
    pub fn name(self, name: &str) -> (r: Self)
        ensures
            r == (RoxygenBuilder { name: r.name, ..self }),
            r.name matches Some(n) && n@ == name@,
    {
        RoxygenBuilder { name: Some(owned(name)), ..self }
    }

    /// Set `@rdname` (groups docs into one page).
    pub fn rdname(self, rdname: &str) -> (r: Self)
        ensures
            r == (RoxygenBuilder { rdname: r.rdname, ..self }),
            r.rdname matches Some(n) && n@ == rdname@,
    {
        RoxygenBuilder { rdname: Some(owned(rdname)), ..self }
    }

    /// Set `@title`.
    pub fn title(self, title: &str) -> (r: Self)
        ensures
            r == (RoxygenBuilder { title: r.title, ..self }),
            r.title matches Some(n) && n@ == title@,
    {
        RoxygenBuilder { title: Some(owned(title)), ..self }
    }

    /// Set `@description`.
    pub fn description(self, desc: &str) -> (r: Self)
        ensures
            r == (RoxygenBuilder { description: r.description, ..self }),
            r.description matches Some(n) && n@ == desc@,
    {
        RoxygenBuilder { description: Some(owned(desc)), ..self }
    }

    /// Set `@source` (written only when the crate opted in).
    pub fn source(self, source: &str) -> (r: Self)
        ensures
            r == (RoxygenBuilder { source: r.source, ..self }),
            r.source matches Some(n) && n@ == source@,
    {
        RoxygenBuilder { source: Some(owned(source)), ..self }
    }

    /// Turn `@source` tags on or off (the crate's `source_tags` setting).
    pub fn with_source_tags(self, enabled: bool) -> (r: Self)
        ensures
            r == (RoxygenBuilder { source_tags: enabled, ..self }),
    {
        RoxygenBuilder { source_tags: enabled, ..self }
    }

    /// Add `@export`.
    pub fn export(self) -> (r: Self)
        ensures
            r == (RoxygenBuilder { export: true, ..self }),
    {
        RoxygenBuilder { export: true, ..self }
    }

    /// Add `@exportMethod` (S4).
    pub fn export_method(self, method: &str) -> (r: Self)
        ensures
            r == (RoxygenBuilder { export_method: r.export_method, ..self }),
            r.export_method matches Some(n) && n@ == method@,
    {
        RoxygenBuilder { export_method: Some(owned(method)), ..self }
    }

    /// Add `@method generic class` (S3).
    pub fn method(self, generic: &str, class: &str) -> (r: Self)
        ensures
            r == (RoxygenBuilder { method: r.method, ..self }),
            r.method matches Some((g, c)) && g@ == generic@ && c@ == class@,
    {
        RoxygenBuilder { method: Some((owned(generic), owned(class))), ..self }
    }

    /// Add a custom tag line (without the `#' ` lead).
    pub fn custom(self, tag: &str) -> (r: Self)
        ensures
            r == (RoxygenBuilder { custom_tags: r.custom_tags, ..self }),
            views(r.custom_tags@) == views(self.custom_tags@).push(tag@),
    {
        let mut s = self;
        s.custom_tags.push(owned(tag));
        proof {
            assert(views(s.custom_tags@) =~= views(self.custom_tags@).push(tag@));
        }
        s
    }

    /// The tag lines, each prefixed with `#' `: title, description, name,
    /// rdname, source (when on), method, custom tags, export, exportMethod.
    pub fn build(&self) -> (r: Vec<String>)
        ensures
            views(r@) == self.spec_lines(),
    {
        let mut lines: Vec<String> = Vec::new();
        push_opt_line(&mut lines, &self.title, "#' @title ");
        push_opt_line(&mut lines, &self.description, "#' @description ");
        push_opt_line(&mut lines, &self.name, "#' @name ");
        push_opt_line(&mut lines, &self.rdname, "#' @rdname ");
        let ghost a = views(lines@);
        if self.source_tags {
            push_opt_line(&mut lines, &self.source, "#' @source ");
        }
        let ghost b = views(lines@);
        match &self.method {
            Some((g, c)) => push_string(&mut lines, crate::text::concat4("#' @method ", g.as_str(), " ", c.as_str())),
            None => {},
        }
        let ghost c = views(lines@);
        push_custom_lines(&mut lines, &self.custom_tags);
        let ghost d = views(lines@);
        if self.export {
            push_string(&mut lines, owned("#' @export"));
        }
        let ghost e = views(lines@);
        push_opt_line(&mut lines, &self.export_method, "#' @exportMethod ");
        proof {
            assert(a =~= opt_line(self.title, "#' @title "@) + opt_line(self.description, "#' @description "@)
                + opt_line(self.name, "#' @name "@) + opt_line(self.rdname, "#' @rdname "@));
            assert(views(lines@) =~= self.spec_lines());
        }
        lines
    }
}

/// Append the tag line of an optional value.
fn push_opt_line(lines: &mut Vec<String>, v: &Option<String>, lead: &str)
    ensures
        views(final(lines)@) == views(old(lines)@) + opt_line(*v, lead@),
{
    match v {
        Some(x) => push_string(lines, concat2(lead, x.as_str())),
        None => {},
    }
    assert(views(lines@) =~= views(old(lines)@) + opt_line(*v, lead@));
}

/// Append the custom tag lines.
fn push_custom_lines(lines: &mut Vec<String>, tags: &Vec<String>)
    ensures
        views(final(lines)@) == views(old(lines)@) + custom_lines(tags@),
{
    let ghost before = views(lines@);
    let mut i: usize = 0;
    while i < tags.len()
        invariant
            i <= tags@.len(),
            views(lines@) == before + custom_lines(tags@.take(i as int)),
        decreases tags@.len() - i,
    {
        push_string(lines, concat2("#' ", tags[i].as_str()));
        proof {
            assert(custom_lines(tags@.take(i + 1)) =~= custom_lines(tags@.take(i as int)).push("#' "@ + tags@[i as int]@));
            assert(views(lines@) =~= before + custom_lines(tags@.take(i + 1)));
        }
        i = i + 1;
    }
    assert(tags@.take(tags@.len() as int) =~= tags@);
}

impl Default for RoxygenBuilder {
    fn default() -> (r: Self)
        ensures
            r.name is None,
            r.rdname is None,
            r.title is None,
            r.description is None,
            r.source is None,
            !r.export,
            r.export_method is None,
            r.method is None,
            r.custom_tags@.len() == 0,
            !r.source_tags,
    {
        RoxygenBuilder::new()
    }
}



// ---------------------------------------------------------------------------
// Call attribution
// ---------------------------------------------------------------------------

/// Which call an R condition raised by a wrapper is attributed to.
#[derive(Clone, Copy, Debug, PartialEq, Eq, Structural)]
pub enum CallAttribution {
    /// No call (`.call = NULL`).
    NoCall,
    /// The wrapper's own matched call.
    Wrapper,
    /// The caller's call, captured in `.mx_call` before the checks run.
    Caller,
}

impl Default for CallAttribution {
    fn default() -> (r: Self)
        ensures
            r == CallAttribution::Wrapper,
    {
        CallAttribution::Wrapper
    }
}

impl CallAttribution {
    /// The `.call` argument of the wrapper's `.Call()`.
    pub fn dot_call_arg(&self) -> (r: &'static str)
        ensures
            r@ == match *self {
                CallAttribution::Wrapper => ".call = match.call()"@,
                CallAttribution::NoCall => ".call = NULL"@,
                CallAttribution::Caller => ".call = .mx_call"@,
            },
    {
        match self {
            CallAttribution::Wrapper => ".call = match.call()",
            CallAttribution::NoCall => ".call = NULL",
            CallAttribution::Caller => ".call = .mx_call",
        }
    }

    /// The default `call` of the wrapper's own error raising.
    pub fn raise_default(&self) -> (r: &'static str)
        ensures
            r@ == match *self {
                CallAttribution::Caller => ".mx_call"@,
                _ => "sys.call()"@,
            },
    {
        match self {
            CallAttribution::Caller => ".mx_call",
            _ => "sys.call()",
        }
    }

    /// The line that binds the caller's call before the checks (empty when
    /// there is nothing to bind). It is one line, so `indent`, the indent of
    /// the following lines, does not appear in it.
    pub fn prelude(&self, indent: &str) -> (r: String)
        ensures
            r@ == match *self {
                CallAttribution::Caller => ".mx_call <- .miniextendr_caller_call()"@,
                _ => Seq::<char>::empty(),
            },
    {
        match self {
            CallAttribution::Caller => owned(".mx_call <- .miniextendr_caller_call()"),
            _ => String::new(),
        }
    }

    /// The call the R-side checks attribute their failures to, when it is
    /// not the wrapper's own.
    pub fn r_check_call(&self) -> (r: Option<&'static str>)
        ensures
            match *self {
                CallAttribution::Caller => r matches Some(c) && c@ == ".mx_call"@,
                _ => r is None,
            },
    {
        match self {
            CallAttribution::Caller => Some(".mx_call"),
            _ => None,
        }
    }

    /// The marker type that selects this attribution in a signature.
    pub fn marker_name(&self) -> (r: Option<&'static str>)
        ensures
            match *self {
                CallAttribution::Wrapper => r matches Some(m) && m@ == "Call"@,
                CallAttribution::Caller => r matches Some(m) && m@ == "CallerCall"@,
                CallAttribution::NoCall => r is None,
            },
    {
        match self {
            CallAttribution::Wrapper => Some("Call"),
            CallAttribution::Caller => Some("CallerCall"),
            CallAttribution::NoCall => None,
        }
    }
}

// ---------------------------------------------------------------------------
// Laws
// ---------------------------------------------------------------------------

/// `strip_underscores` leaves a string that does not start with `_`.
proof fn lemma_strip_underscores_head(s: Seq<char>)
    ensures
        strip_underscores(s).len() == 0 || strip_underscores(s)[0] != '_',
        strip_underscores(strip_underscores(s)) == strip_underscores(s),
    decreases s.len(),
{
    if s.len() > 0 && s[0] == '_' {
        lemma_strip_underscores_head(s.drop_first());
    }
}

/// An R argument name is never empty and never starts with `_`, and
/// normalizing it again changes nothing.
pub proof fn lemma_r_arg_name_normal(s: Seq<char>)
    ensures
        r_arg_name(s).len() > 0,
        r_arg_name(s)[0] != '_',
        r_arg_name(r_arg_name(s)) == r_arg_name(s),
{
    lemma_strip_underscores_head(s);
    reveal_strlit("arg");
    let t = strip_underscores(s);
    if t.len() == 0 {
        assert(strip_underscores("arg"@) == "arg"@);
    }
}

} // verus!
