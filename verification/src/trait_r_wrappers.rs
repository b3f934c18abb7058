//! The R wrappers of a trait impl: the lines each class system writes for
//! the instance methods, static methods and constants of
//! `impl Trait for Type`.
//!
//! Each method comes with the pieces that the method's own attributes and
//! documentation decide (its R name, page, page lines, `@param` tags, call,
//! prelude and body lines); this module lays them out.
use vstd::prelude::*;
use crate::r_wrapper_builder::{dot_call_text, DotCallBuilder};
use crate::miniextendr_impl_trait::{apply_trait_wrapper_opts, wrapper_output, TraitWrapperOpts};
use crate::return_wrap::ClassSystem;
use crate::roxygen::{comment_lines, push_roxygen_tags};
use crate::text::{concat2, concat3, concat4, concat5, join, join_strings, owned, push_string, str_eq, trim_start, str_trim_start, views};

verus! {

/// The per-method context of a trait method's wrappers: the C wrapper
/// name, the R formals with their defaults and the `.Call()` arguments are
/// built exactly as for an inherent method.
pub type TraitMethodContext<'a> = crate::r_class_formatter::MethodContext<'a>;

/// One method of a trait impl, with the pieces its R wrapper is made of.
pub struct TraitWrapperMethod {
    /// The method's R name.
    pub r_name: String,
    /// Whether it has a receiver (an instance method).
    pub has_self: bool,
    /// Whether its documentation picks a page (`@rdname` or `@describeIn`).
    pub picks_page: bool,
    /// The page its blocks land on.
    pub page: String,
    /// Whether the page is an author topic other than the type page.
    pub joins_author_topic: bool,
    /// The ordering tag its blocks get on an author topic, if any.
    pub order_tag: Option<String>,
    /// The definition of its S3 generic, made only if none exists.
    pub generic_guard: String,
    /// The page lines of its own block.
    pub page_lines: Vec<String>,
    /// Its `@param` tags (without the `#' ` lead).
    pub param_tags: Vec<String>,
    /// The name its S3 method is defined under in R code.
    pub def_name: String,
    /// The R formals after the receiver.
    pub params: String,
    /// The lines that check and prepare the arguments.
    pub prelude: Vec<String>,
    /// The lines of the body that make the call and return.
    pub body: Vec<String>,
    /// Whether the Rust method returns `()` (the receiver is returned).
    pub returns_unit: bool,
    /// Whether the result is returned invisibly.
    pub invisible: bool,
    /// Where a static method is assigned (`Type$Trait$name`, or the local
    /// `.Type__Trait$name` of S7).
    pub namespace_target: String,
    /// The Rust name of the method.
    pub rust_name: String,
    /// The body lines of a method that calls through the object's pointer
    /// `.ptr` (S7, S4 and R6 instance methods).
    pub ptr_body: Vec<String>,
    /// Whether its documentation lists it in another topic (`@describeIn`).
    pub describes_in: bool,
    /// The plain-identifier names of its parameters after the receiver.
    pub param_names: Vec<String>,
    /// `s7(no_shortcut)`: no fast-path shortcut function.
    pub no_shortcut: bool,
    /// The advisory lines that document a shortcut.
    pub advisory: Vec<String>,
    /// The shortcut's formals, each with whether the author documents it.
    pub shortcut_formals: Vec<(String, bool)>,
    /// Whether the method's arguments are documented by another block
    /// (then no `(undocumented)` filler is written).
    pub params_documented_elsewhere: bool,
    /// The page lines of the shortcut's block.
    pub shortcut_page_lines: Vec<String>,
    /// The `@source` lines of the shortcut's block.
    pub shortcut_source: Vec<String>,
    /// The body lines of the shortcut, which calls through `self@.ptr`.
    pub shortcut_body: Vec<String>,
}

/// An associated constant of a trait impl.
pub struct TraitWrapperConst {
    /// Where it is assigned (`Type$Trait$NAME`, or `.Type__Trait$NAME` for
    /// S7).
    pub target: String,
    /// The name it is documented under (`Type$Trait$NAME`).
    pub doc_name: String,
    /// The C wrapper that returns it.
    pub c_ident: String,
}

/// The lines with the leading spaces of `s` (the part before
/// `trim_start(s)`).
pub open spec fn indent_of(s: Seq<char>) -> Seq<char> {
    s.take(s.len() - trim_start(s).len())
}

/// The end of an instance method's body: `()`-returning methods return the
/// receiver, and an invisible result wraps the last line in `invisible(..)`.
pub open spec fn finished(ls: Seq<Seq<char>>, returns_unit: bool, invisible: bool, receiver: Seq<char>) -> Seq<Seq<char>> {
    let a = if returns_unit {
        ls.push("  "@ + receiver)
    } else {
        ls
    };
    if invisible && a.len() > 0 {
        let last = a.last();
        a.update(a.len() - 1, indent_of(last) + "invisible("@ + trim_start(last) + ")"@)
    } else {
        a
    }
}

proof fn lemma_trim_start_shorter(s: Seq<char>)
    ensures
        trim_start(s).len() <= s.len(),
    decreases s.len(),
{
    if s.len() > 0 {
        lemma_trim_start_shorter(s.drop_first());
    }
}

/// End an instance method's body (see [`finished`]).
pub fn finish_instance_body(lines: &mut Vec<String>, returns_unit: bool, invisible: bool, receiver: &str)
    ensures
        views(final(lines)@) == finished(views(old(lines)@), returns_unit, invisible, receiver@),
{
    if returns_unit {
        push_string(lines, concat2("  ", receiver));
    }
    let n = lines.len();
    if invisible && n > 0 {
        let last = lines[n - 1].as_str();
        let expr = str_trim_start(last);
        proof {
            lemma_trim_start_shorter(last@);
        }
        let indent_len = last.unicode_len() - expr.unicode_len();
        let indent = last.substring_char(0, indent_len);
        let mut line = concat3(indent, "invisible(", expr);
        line.append(")");
        let ghost before = views(lines@);
        lines.set(n - 1, line);
        proof {
            assert(indent@ =~= indent_of(before.last()));
            assert(views(lines@) =~= before.update(before.len() - 1, indent@ + "invisible("@ + expr@ + ")"@));
        }
    }
}

/// The R formals of an S3 method: the receiver `x`, the method's own, `...`.
pub open spec fn s3_formals(params: Seq<char>) -> Seq<char> {
    if params.len() == 0 {
        "x, ..."@
    } else {
        "x, "@ + params + ", ..."@
    }
}

/// The roxygen block of an instance method's S3 generic.
pub open spec fn s3_generic_doc(m: TraitWrapperMethod, type_str: Seq<char>) -> Seq<Seq<char>> {
    let g = m.r_name@;
    (if m.picks_page {
        Seq::empty()
    } else {
        seq!["#' @title S3 generic for `"@ + g + "`"@]
    }) + (if m.joins_author_topic {
        Seq::empty()
    } else {
        seq!["#' @description S3 generic for `"@ + g + "`"@]
    }) + seq!["#' @name "@ + g + "."@ + type_str, "#' @rdname "@ + m.page@] + (if m.joins_author_topic {
        Seq::empty()
    } else {
        seq!["#' @param x An object"@, "#' @param ... Additional arguments passed to methods"@]
    }) + (match m.order_tag {
        Some(t) => seq!["#' "@ + t@],
        None => Seq::empty(),
    }) + seq!["#' @export"@]
}

/// The `#' ` lines of tags.
pub open spec fn tag_lines(tags: Seq<String>) -> Seq<Seq<char>> {
    tags.map_values(|t: String| "#' "@ + t@)
}

/// The lines of an instance method: its S3 generic (documented, made only
/// if missing), its S3 method `generic.Type` (documented and exported,
/// with the method's `@param` tags) and its registration as an S7 method
/// when the generic is an S7 one.
pub open spec fn s3_instance_block(m: TraitWrapperMethod, type_str: Seq<char>) -> Seq<Seq<char>> {
    let g = m.r_name@;
    finished(s3_instance_head(m, type_str), m.returns_unit, m.invisible, "x"@) + seq![
        "}"@,
        "if (inherits(get0(\""@ + g + "\", mode = \"function\"), \"S7_generic\")) {"@,
        "  S7::method("@ + g + ", S7::new_S3_class(\""@ + type_str + "\")) <- "@ + g + "."@ + type_str,
        "}"@,
        Seq::empty(),
    ]
}

/// The lines of an instance method up to the end of its S3 method's body.
pub open spec fn s3_instance_head(m: TraitWrapperMethod, type_str: Seq<char>) -> Seq<Seq<char>> {
    let g = m.r_name@;
    s3_generic_doc(m, type_str) + seq![m.generic_guard@, Seq::empty()] + views(m.page_lines@) + seq![
        "#' @method "@ + g + " "@ + type_str,
    ] + tag_lines(m.param_tags@) + seq!["#' @export"@] + seq![
        m.def_name@ + " <- function("@ + s3_formals(m.params@) + ") {"@,
    ] + views(m.prelude@) + views(m.body@)
}

/// The lines of a static method, assigned in the `Type$Trait` namespace.
pub open spec fn s3_static_block(m: TraitWrapperMethod, trait_name: Seq<char>) -> Seq<Seq<char>> {
    seq!["#' Static trait method "@ + trait_name + "::"@ + m.r_name@ + "()"@] + views(m.page_lines@) + seq![
        m.namespace_target@ + " <- function("@ + m.params@ + ") {"@,
    ] + views(m.prelude@) + views(m.body@) + seq!["}"@, Seq::empty()]
}

/// The lines of an associated constant: a function in the `Type$Trait`
/// namespace that calls its C wrapper.
pub open spec fn s3_const_block(c: TraitWrapperConst, type_str: Seq<char>) -> Seq<Seq<char>> {
    seq![
        "#' @name "@ + c.target@,
        "#' @rdname "@ + type_str,
        c.target@ + " <- function() {"@,
        "  "@ + dot_call_text(c.c_ident@, false, Seq::empty()),
        "}"@,
        Seq::empty(),
    ]
}

/// The instance-method blocks of `ms[..n]`, in order.
pub open spec fn s3_instance_blocks(ms: Seq<TraitWrapperMethod>, type_str: Seq<char>, n: int) -> Seq<Seq<char>>
    decreases n,
{
    if n <= 0 || n > ms.len() {
        Seq::empty()
    } else {
        s3_instance_blocks(ms, type_str, n - 1) + if ms[n - 1].has_self {
            s3_instance_block(ms[n - 1], type_str)
        } else {
            Seq::empty()
        }
    }
}

/// The static-method blocks of `ms[..n]`, in order.
pub open spec fn s3_static_blocks(ms: Seq<TraitWrapperMethod>, trait_name: Seq<char>, n: int) -> Seq<Seq<char>>
    decreases n,
{
    if n <= 0 || n > ms.len() {
        Seq::empty()
    } else {
        s3_static_blocks(ms, trait_name, n - 1) + if ms[n - 1].has_self {
            Seq::empty()
        } else {
            s3_static_block(ms[n - 1], trait_name)
        }
    }
}

/// The constant blocks of `cs[..n]`, in order.
pub open spec fn s3_const_blocks(cs: Seq<TraitWrapperConst>, type_str: Seq<char>, n: int) -> Seq<Seq<char>>
    decreases n,
{
    if n <= 0 || n > cs.len() {
        Seq::empty()
    } else {
        s3_const_blocks(cs, type_str, n - 1) + s3_const_block(cs[n - 1], type_str)
    }
}

/// The lines of the S3 wrappers of `impl Trait for Type`: a header, the
/// instance methods (S3 dispatch), then, when there are static methods or
/// constants, the `Type$Trait` namespace, the static methods and the
/// constants.
pub open spec fn trait_s3_wrapper_lines(
    type_str: Seq<char>,
    trait_name: Seq<char>,
    ms: Seq<TraitWrapperMethod>,
    cs: Seq<TraitWrapperConst>,
) -> Seq<Seq<char>> {
    seq![
        "# S3 trait methods for "@ + type_str + " implementing "@ + trait_name,
        "# Generated by #[miniextendr(s3)] impl "@ + trait_name + " for "@ + type_str,
        Seq::empty(),
    ] + s3_instance_blocks(ms, type_str, ms.len() as int) + (if (exists|k: int|
        0 <= k < ms.len() && !(#[trigger] ms[k]).has_self) || cs.len() > 0 {
        seq![type_str + "$"@ + trait_name + " <- new.env(parent = emptyenv())"@, Seq::empty()]
    } else {
        Seq::empty()
    }) + s3_static_blocks(ms, trait_name, ms.len() as int) + s3_const_blocks(cs, type_str, cs.len() as int)
}

/// The S3 wrapper text: its lines joined by newlines.
pub open spec fn trait_s3_wrapper_text(
    type_str: Seq<char>,
    trait_name: Seq<char>,
    ms: Seq<TraitWrapperMethod>,
    cs: Seq<TraitWrapperConst>,
) -> Seq<char> {
    join(trait_s3_wrapper_lines(type_str, trait_name, ms, cs), "\n"@)
}

fn extend_lines(out: &mut Vec<String>, more: &Vec<String>)
    ensures
        views(final(out)@) == views(old(out)@) + views(more@),
{
    let ghost start = views(out@);
    let mut i: usize = 0;
    while i < more.len()
        invariant
            i <= more@.len(),
            views(out@) == start + views(more@.take(i as int)),
        decreases more@.len() - i,
    {
        push_string(out, owned(more[i].as_str()));
        assert(views(more@.take(i as int + 1)) =~= views(more@.take(i as int)).push(more@[i as int]@));
        assert(views(out@) =~= start + views(more@.take(i as int + 1)));
        i = i + 1;
    }
    assert(more@.take(i as int) =~= more@);
}

fn push_tag_lines(out: &mut Vec<String>, tags: &Vec<String>)
    ensures
        views(final(out)@) == views(old(out)@) + tag_lines(tags@),
{
    let ghost start = views(out@);
    let mut i: usize = 0;
    while i < tags.len()
        invariant
            i <= tags@.len(),
            views(out@) == start + tag_lines(tags@.take(i as int)),
        decreases tags@.len() - i,
    {
        push_string(out, concat2("#' ", tags[i].as_str()));
        assert(tag_lines(tags@.take(i as int + 1)) =~= tag_lines(tags@.take(i as int)).push("#' "@ + tags@[i as int]@));
        assert(views(out@) =~= start + tag_lines(tags@.take(i as int + 1)));
        i = i + 1;
    }
    assert(tags@.take(i as int) =~= tags@);
}

fn s3_generic_doc_lines(out: &mut Vec<String>, m: &TraitWrapperMethod, type_str: &str)
    ensures
        views(final(out)@) == views(old(out)@) + s3_generic_doc(*m, type_str@),
{
    let ghost start = views(out@);
    let g = m.r_name.as_str();
    if !m.picks_page {
        push_string(out, concat3("#' @title S3 generic for `", g, "`"));
    }
    if !m.joins_author_topic {
        push_string(out, concat3("#' @description S3 generic for `", g, "`"));
    }
    push_string(out, concat4("#' @name ", g, ".", type_str));
    push_string(out, concat2("#' @rdname ", m.page.as_str()));
    if !m.joins_author_topic {
        push_string(out, owned("#' @param x An object"));
        push_string(out, owned("#' @param ... Additional arguments passed to methods"));
    }
    match &m.order_tag {
        Some(t) => push_string(out, concat2("#' ", t.as_str())),
        None => {},
    }
    push_string(out, owned("#' @export"));
    assert(views(out@) =~= start + s3_generic_doc(*m, type_str@));
}

fn s3_instance_head_lines(head: &mut Vec<String>, m: &TraitWrapperMethod, type_str: &str)
    ensures
        views(final(head)@) == views(old(head)@) + s3_instance_head(*m, type_str@),
{
    let ghost start = views(head@);
    let g = m.r_name.as_str();
    s3_generic_doc_lines(head, m, type_str);
    push_string(head, owned(m.generic_guard.as_str()));
    push_string(head, String::new());
    extend_lines(head, &m.page_lines);
    push_string(head, concat4("#' @method ", g, " ", type_str));
    push_tag_lines(head, &m.param_tags);
    push_string(head, owned("#' @export"));
    let formals = if m.params.unicode_len() == 0 {
        owned("x, ...")
    } else {
        concat3("x, ", m.params.as_str(), ", ...")
    };
    push_string(head, concat4(m.def_name.as_str(), " <- function(", formals.as_str(), ") {"));
    extend_lines(head, &m.prelude);
    extend_lines(head, &m.body);
    proof {
        assert(formals@ == s3_formals(m.params@));
    }
    assert(views(head@) =~= start + s3_instance_head(*m, type_str@));
}

fn s3_instance(out: &mut Vec<String>, m: &TraitWrapperMethod, type_str: &str)
    ensures
        views(final(out)@) == views(old(out)@) + s3_instance_block(*m, type_str@),
{
    let g = m.r_name.as_str();
    let mut head: Vec<String> = Vec::new();
    s3_instance_head_lines(&mut head, m, type_str);
    assert(views(head@) =~= s3_instance_head(*m, type_str@));
    finish_instance_body(&mut head, m.returns_unit, m.invisible, "x");
    let ghost start = views(out@);
    extend_lines(out, &head);
    push_string(out, owned("}"));
    push_string(out, concat3("if (inherits(get0(\"", g, "\", mode = \"function\"), \"S7_generic\")) {"));
    let s3_name = concat3(g, ".", type_str);
    let mut reg = concat5("  S7::method(", g, ", S7::new_S3_class(\"", type_str, "\")) <- ");
    reg.append(s3_name.as_str());
    assert(reg@ =~= "  S7::method("@ + g@ + ", S7::new_S3_class(\""@ + type_str@ + "\")) <- "@ + g@ + "."@ + type_str@);
    push_string(out, reg);
    push_string(out, owned("}"));
    push_string(out, String::new());
    assert(views(out@) =~= start + s3_instance_block(*m, type_str@));
}

fn s3_static(out: &mut Vec<String>, m: &TraitWrapperMethod, trait_name: &str)
    ensures
        views(final(out)@) == views(old(out)@) + s3_static_block(*m, trait_name@),
{
    let ghost start = views(out@);
    let mut first = concat4("#' Static trait method ", trait_name, "::", m.r_name.as_str());
    first.append("()");
    push_string(out, first);
    extend_lines(out, &m.page_lines);
    push_string(out, concat4(m.namespace_target.as_str(), " <- function(", m.params.as_str(), ") {"));
    extend_lines(out, &m.prelude);
    extend_lines(out, &m.body);
    push_string(out, owned("}"));
    push_string(out, String::new());
    assert(views(out@) =~= start + s3_static_block(*m, trait_name@));
}

fn s3_const(out: &mut Vec<String>, c: &TraitWrapperConst, type_str: &str)
    ensures
        views(final(out)@) == views(old(out)@) + s3_const_block(*c, type_str@),
{
    let ghost start = views(out@);
    push_string(out, concat2("#' @name ", c.target.as_str()));
    push_string(out, concat2("#' @rdname ", type_str));
    push_string(out, concat2(c.target.as_str(), " <- function() {"));
    let builder = DotCallBuilder::new(c.c_ident.as_str());
    let call = builder.build();
    proof {
        assert(builder.all_args() =~= Seq::<Seq<char>>::empty());
    }
    push_string(out, concat2("  ", call.as_str()));
    push_string(out, owned("}"));
    push_string(out, String::new());
    assert(views(out@) =~= start + s3_const_block(*c, type_str@));
}

/// The S3 wrappers of `impl Trait for Type` (see
/// [`trait_s3_wrapper_lines`]).
pub fn trait_s3_r_wrapper(
    type_str: &str,
    trait_name: &str,
    methods: &[TraitWrapperMethod],
    consts: &[TraitWrapperConst],
) -> (r: String)
    ensures
        r@ == trait_s3_wrapper_text(type_str@, trait_name@, methods@, consts@),
{
    let ghost ms = methods@;
    let ghost cs = consts@;
    let mut lines: Vec<String> = Vec::new();
    push_string(&mut lines, concat4("# S3 trait methods for ", type_str, " implementing ", trait_name));
    push_string(&mut lines, concat4("# Generated by #[miniextendr(s3)] impl ", trait_name, " for ", type_str));
    push_string(&mut lines, String::new());
    let ghost header = views(lines@);
    let mut any_static = false;
    let mut i: usize = 0;
    while i < methods.len()
        invariant
            i <= ms.len(),
            ms == methods@,
            views(lines@) == header + s3_instance_blocks(ms, type_str@, i as int),
            any_static == exists|k: int| 0 <= k < i && !(#[trigger] ms[k]).has_self,
        decreases ms.len() - i,
    {
        if methods[i].has_self {
            s3_instance(&mut lines, &methods[i], type_str);
        } else {
            any_static = true;
        }
        assert(views(lines@) =~= header + s3_instance_blocks(ms, type_str@, i as int + 1));
        i = i + 1;
    }
    let ghost after_instances = views(lines@);
    if any_static || consts.len() > 0 {
        push_string(&mut lines, concat4(type_str, "$", trait_name, " <- new.env(parent = emptyenv())"));
        push_string(&mut lines, String::new());
    }
    let ghost after_ns = views(lines@);
    let mut j: usize = 0;
    while j < methods.len()
        invariant
            j <= ms.len(),
            ms == methods@,
            views(lines@) == after_ns + s3_static_blocks(ms, trait_name@, j as int),
        decreases ms.len() - j,
    {
        if !methods[j].has_self {
            s3_static(&mut lines, &methods[j], trait_name);
        }
        assert(views(lines@) =~= after_ns + s3_static_blocks(ms, trait_name@, j as int + 1));
        j = j + 1;
    }
    let ghost after_statics = views(lines@);
    let mut k: usize = 0;
    while k < consts.len()
        invariant
            k <= cs.len(),
            cs == consts@,
            views(lines@) == after_statics + s3_const_blocks(cs, type_str@, k as int),
        decreases cs.len() - k,
    {
        s3_const(&mut lines, &consts[k], type_str);
        assert(views(lines@) =~= after_statics + s3_const_blocks(cs, type_str@, k as int + 1));
        k = k + 1;
    }
    assert(views(lines@) =~= trait_s3_wrapper_lines(type_str@, trait_name@, ms, cs));
    join_strings(&lines, "\n")
}

// ---------------------------------------------------------------------------
// S7
// ---------------------------------------------------------------------------

/// The S7 generic of an instance method: `s7_trait_<Trait>_<method>`.
pub open spec fn s7_generic_name(trait_name: Seq<char>, m: TraitWrapperMethod) -> Seq<char> {
    "s7_trait_"@ + trait_name + "_"@ + m.r_name@
}

/// The formals of a shortcut: `self`, the method's own, `...`.
pub open spec fn shortcut_formals_text(params: Seq<char>) -> Seq<char> {
    if params.len() == 0 {
        "self, ..."@
    } else {
        "self, "@ + params + ", ..."@
    }
}

/// The filler `@param` line of one shortcut formal, if it gets one: none on
/// an author topic, for `self` or for a documented formal; `...` is always
/// documented; other formals get `(undocumented)` unless the arguments are
/// documented elsewhere.
pub open spec fn formal_filler(f: (String, bool), joined: bool, fillers: bool) -> Seq<Seq<char>> {
    let name = f.0@;
    if joined || name == "self"@ || f.1 {
        Seq::empty()
    } else if name == "..."@ {
        seq!["#' @param ... Additional arguments; ignored by the fast-path shortcut."@]
    } else if fillers {
        seq!["#' @param "@ + name + " (undocumented)"@]
    } else {
        Seq::empty()
    }
}

/// The filler lines of `fs[..n]`.
pub open spec fn formal_fillers(fs: Seq<(String, bool)>, joined: bool, fillers: bool, n: int) -> Seq<Seq<char>>
    decreases n,
{
    if n <= 0 || n > fs.len() {
        Seq::empty()
    } else {
        formal_fillers(fs, joined, fillers, n - 1) + formal_filler(fs[n - 1], joined, fillers)
    }
}

/// The documentation of a shortcut: the advisory (only its title line on
/// an author topic), `self`, the method's `@param` tags, fillers, page and
/// source lines, `@export`.
pub open spec fn s7_shortcut_doc(m: TraitWrapperMethod, type_str: Seq<char>) -> Seq<Seq<char>> {
    let joined = m.joins_author_topic;
    let adv = views(m.advisory@);
    (if joined && adv.len() > 0 {
        adv.take(1)
    } else {
        adv
    }) + (if joined {
        Seq::empty()
    } else {
        seq!["#' @param self A `"@ + type_str + "` object."@]
    }) + comment_lines(views(m.param_tags@)) + formal_fillers(
        m.shortcut_formals@,
        joined,
        !m.params_documented_elsewhere,
        m.shortcut_formals@.len() as int,
    ) + views(m.shortcut_page_lines@) + views(m.shortcut_source@) + seq!["#' @export"@]
}

/// The code of a shortcut: `Type_method(self, ...)` calling `.Call`
/// directly through `self@.ptr`.
pub open spec fn s7_shortcut_code(m: TraitWrapperMethod, type_str: Seq<char>) -> Seq<Seq<char>> {
    finished(
        seq![type_str + "_"@ + m.r_name@ + " <- function("@ + shortcut_formals_text(m.params@) + ") {"@] + views(
            m.prelude@,
        ) + views(m.shortcut_body@),
        m.returns_unit,
        m.invisible,
        "self"@,
    ) + seq!["}"@, Seq::empty()]
}

/// The fast-path shortcut of an instance method, with its documentation.
pub open spec fn s7_shortcut_block(m: TraitWrapperMethod, type_str: Seq<char>) -> Seq<Seq<char>> {
    s7_shortcut_doc(m, type_str) + s7_shortcut_code(m, type_str)
}

/// The lines of an S7 instance method: its generic (documented, made only
/// if missing), its method on the class object (which reads `x@.ptr`), and
/// its shortcut unless `no_shortcut`.
pub open spec fn s7_instance_block(m: TraitWrapperMethod, type_str: Seq<char>, trait_name: Seq<char>) -> Seq<Seq<char>> {
    s7_generic_part(m, type_str, trait_name) + s7_method_part(m, type_str, trait_name) + if m.no_shortcut {
        Seq::empty()
    } else {
        s7_shortcut_block(m, type_str)
    }
}

/// The documented S7 generic of an instance method, made only if missing.
pub open spec fn s7_generic_part(m: TraitWrapperMethod, type_str: Seq<char>, trait_name: Seq<char>) -> Seq<Seq<char>> {
    let g = s7_generic_name(trait_name, m);
    seq![
        "#' @description S7 generic for trait method `"@ + trait_name + "::"@ + m.rust_name@ + "`"@,
        "#' @name "@ + g,
        "#' @rdname "@ + type_str,
        "#' @export"@,
        "if (!exists(\""@ + g + "\", mode = \"function\")) {"@,
        "  "@ + g + " <- S7::new_generic(\""@ + g + "\", \"x\", function(x, ...) S7::S7_dispatch())"@,
        "}"@,
        Seq::empty(),
    ]
}

/// The S7 method of an instance method on the class object; it reads
/// `x@.ptr`.
pub open spec fn s7_method_part(m: TraitWrapperMethod, type_str: Seq<char>, trait_name: Seq<char>) -> Seq<Seq<char>> {
    let g = s7_generic_name(trait_name, m);
    finished(
        seq![
            "S7::method("@ + g + ", .s7_class_"@ + type_str + ") <- function("@ + s3_formals(m.params@) + ") {"@,
            "  .ptr <- x@.ptr"@,
        ] + views(m.prelude@) + views(m.ptr_body@),
        m.returns_unit,
        m.invisible,
        "x"@,
    ) + seq!["}"@, Seq::empty()]
}

/// The lines of an S7 constant.
pub open spec fn s7_const_block(c: TraitWrapperConst, type_str: Seq<char>) -> Seq<Seq<char>> {
    seq![
        "#' @name "@ + c.doc_name@,
        "#' @rdname "@ + type_str,
        c.target@ + " <- function() {"@,
        "  "@ + dot_call_text(c.c_ident@, false, Seq::empty()),
        "}"@,
        Seq::empty(),
    ]
}

/// The S7 instance blocks of `ms[..n]`.
pub open spec fn s7_instance_blocks(ms: Seq<TraitWrapperMethod>, type_str: Seq<char>, trait_name: Seq<char>, n: int) -> Seq<
    Seq<char>,
>
    decreases n,
{
    if n <= 0 || n > ms.len() {
        Seq::empty()
    } else {
        s7_instance_blocks(ms, type_str, trait_name, n - 1) + if ms[n - 1].has_self {
            s7_instance_block(ms[n - 1], type_str, trait_name)
        } else {
            Seq::empty()
        }
    }
}

/// The S7 constant blocks of `cs[..n]`.
pub open spec fn s7_const_blocks(cs: Seq<TraitWrapperConst>, type_str: Seq<char>, n: int) -> Seq<Seq<char>>
    decreases n,
{
    if n <= 0 || n > cs.len() {
        Seq::empty()
    } else {
        s7_const_blocks(cs, type_str, n - 1) + s7_const_block(cs[n - 1], type_str)
    }
}

/// The lines of the S7 wrappers of `impl Trait for Type`: a header that
/// binds the class object, the instance methods, then, with static methods
/// or constants, a local trait env (`trait_env_var`) holding them, attached
/// to the class as an attribute (S7 intercepts `$<-`).
pub open spec fn trait_s7_wrapper_lines(
    type_str: Seq<char>,
    trait_name: Seq<char>,
    trait_env_var: Seq<char>,
    ms: Seq<TraitWrapperMethod>,
    cs: Seq<TraitWrapperConst>,
) -> Seq<Seq<char>> {
    let ns = (exists|k: int| 0 <= k < ms.len() && !(#[trigger] ms[k]).has_self) || cs.len() > 0;
    seq![
        "# S7 trait methods for "@ + type_str + " implementing "@ + trait_name,
        "# Generated by #[miniextendr(s7)] impl "@ + trait_name + " for "@ + type_str,
        Seq::empty(),
        "#' @importFrom S7 new_generic method S7_dispatch"@,
        ".s7_class_"@ + type_str + " <- "@ + type_str,
        Seq::empty(),
    ] + s7_instance_blocks(ms, type_str, trait_name, ms.len() as int) + (if ns {
        seq![trait_env_var + " <- new.env(parent = emptyenv())"@, Seq::empty()]
    } else {
        Seq::empty()
    }) + s3_static_blocks(ms, trait_name, ms.len() as int) + s7_const_blocks(cs, type_str, cs.len() as int) + (if ns {
        seq!["attr("@ + type_str + ", \""@ + trait_name + "\") <- "@ + trait_env_var, Seq::empty()]
    } else {
        Seq::empty()
    })
}

/// The S7 wrapper text: its lines joined by newlines.
pub open spec fn trait_s7_wrapper_text(
    type_str: Seq<char>,
    trait_name: Seq<char>,
    trait_env_var: Seq<char>,
    ms: Seq<TraitWrapperMethod>,
    cs: Seq<TraitWrapperConst>,
) -> Seq<char> {
    join(trait_s7_wrapper_lines(type_str, trait_name, trait_env_var, ms, cs), "\n"@)
}

fn push_formal_fillers(out: &mut Vec<String>, fs: &Vec<(String, bool)>, joined: bool, fillers: bool)
    ensures
        views(final(out)@) == views(old(out)@) + formal_fillers(fs@, joined, fillers, fs@.len() as int),
{
    let ghost start = views(out@);
    let mut i: usize = 0;
    while i < fs.len()
        invariant
            i <= fs@.len(),
            views(out@) == start + formal_fillers(fs@, joined, fillers, i as int),
        decreases fs@.len() - i,
    {
        let name = fs[i].0.as_str();
        let documented = fs[i].1;
        if joined || str_eq(name, "self") || documented {
        } else if str_eq(name, "...") {
            push_string(out, owned("#' @param ... Additional arguments; ignored by the fast-path shortcut."));
        } else if fillers {
            push_string(out, concat3("#' @param ", name, " (undocumented)"));
        }
        assert(views(out@) =~= start + formal_fillers(fs@, joined, fillers, i as int + 1));
        i = i + 1;
    }
}

fn s7_shortcut_doc_lines(out: &mut Vec<String>, m: &TraitWrapperMethod, type_str: &str)
    ensures
        views(final(out)@) == views(old(out)@) + s7_shortcut_doc(*m, type_str@),
{
    let ghost start = views(out@);
    let joined = m.joins_author_topic;
    if joined && m.advisory.len() > 0 {
        push_string(out, owned(m.advisory[0].as_str()));
        proof {
            assert(views(m.advisory@).take(1) =~= seq![m.advisory@[0]@]);
        }
    } else {
        extend_lines(out, &m.advisory);
    }
    if !joined {
        push_string(out, concat3("#' @param self A `", type_str, "` object."));
    }
    push_roxygen_tags(out, m.param_tags.as_slice());
    push_formal_fillers(out, &m.shortcut_formals, joined, !m.params_documented_elsewhere);
    extend_lines(out, &m.shortcut_page_lines);
    extend_lines(out, &m.shortcut_source);
    push_string(out, owned("#' @export"));
    assert(views(out@) =~= start + s7_shortcut_doc(*m, type_str@));
}

fn s7_shortcut_code_lines(out: &mut Vec<String>, m: &TraitWrapperMethod, type_str: &str)
    ensures
        views(final(out)@) == views(old(out)@) + s7_shortcut_code(*m, type_str@),
{
    let ghost start = views(out@);
    let formals = if m.params.unicode_len() == 0 {
        owned("self, ...")
    } else {
        concat3("self, ", m.params.as_str(), ", ...")
    };
    let mut body: Vec<String> = Vec::new();
    let mut head = concat4(type_str, "_", m.r_name.as_str(), " <- function(");
    head.append(formals.as_str());
    head.append(") {");
    push_string(&mut body, head);
    extend_lines(&mut body, &m.prelude);
    extend_lines(&mut body, &m.shortcut_body);
    proof {
        assert(formals@ == shortcut_formals_text(m.params@));
    }
    finish_instance_body(&mut body, m.returns_unit, m.invisible, "self");
    extend_lines(out, &body);
    push_string(out, owned("}"));
    push_string(out, String::new());
    assert(views(out@) =~= start + s7_shortcut_code(*m, type_str@));
}

fn s7_shortcut(out: &mut Vec<String>, m: &TraitWrapperMethod, type_str: &str)
    ensures
        views(final(out)@) == views(old(out)@) + s7_shortcut_block(*m, type_str@),
{
    let ghost start = views(out@);
    s7_shortcut_doc_lines(out, m, type_str);
    s7_shortcut_code_lines(out, m, type_str);
    assert(views(out@) =~= start + s7_shortcut_block(*m, type_str@));
}

fn s7_generic_lines(out: &mut Vec<String>, m: &TraitWrapperMethod, type_str: &str, trait_name: &str)
    ensures
        views(final(out)@) == views(old(out)@) + s7_generic_part(*m, type_str@, trait_name@),
{
    let ghost start = views(out@);
    let g = concat4("s7_trait_", trait_name, "_", m.r_name.as_str());
    let gs = g.as_str();
    let desc = concat5("#' @description S7 generic for trait method `", trait_name, "::", m.rust_name.as_str(), "`");
    push_string(out, desc);
    push_string(out, concat2("#' @name ", gs));
    push_string(out, concat2("#' @rdname ", type_str));
    push_string(out, owned("#' @export"));
    push_string(out, concat3("if (!exists(\"", gs, "\", mode = \"function\")) {"));
    let def = concat5("  ", gs, " <- S7::new_generic(\"", gs, "\", \"x\", function(x, ...) S7::S7_dispatch())");
    push_string(out, def);
    push_string(out, owned("}"));
    push_string(out, String::new());
    assert(views(out@) =~= start + s7_generic_part(*m, type_str@, trait_name@));
}

fn s7_method_lines(out: &mut Vec<String>, m: &TraitWrapperMethod, type_str: &str, trait_name: &str)
    ensures
        views(final(out)@) == views(old(out)@) + s7_method_part(*m, type_str@, trait_name@),
{
    let ghost start = views(out@);
    let g = concat4("s7_trait_", trait_name, "_", m.r_name.as_str());
    let formals = if m.params.unicode_len() == 0 {
        owned("x, ...")
    } else {
        concat3("x, ", m.params.as_str(), ", ...")
    };
    let mut body: Vec<String> = Vec::new();
    let mut head = concat5("S7::method(", g.as_str(), ", .s7_class_", type_str, ") <- function(");
    head.append(formals.as_str());
    head.append(") {");
    push_string(&mut body, head);
    push_string(&mut body, owned("  .ptr <- x@.ptr"));
    extend_lines(&mut body, &m.prelude);
    extend_lines(&mut body, &m.ptr_body);
    proof {
        assert(formals@ == s3_formals(m.params@));
    }
    finish_instance_body(&mut body, m.returns_unit, m.invisible, "x");
    extend_lines(out, &body);
    push_string(out, owned("}"));
    push_string(out, String::new());
    assert(views(out@) =~= start + s7_method_part(*m, type_str@, trait_name@));
}

fn s7_instance(out: &mut Vec<String>, m: &TraitWrapperMethod, type_str: &str, trait_name: &str)
    ensures
        views(final(out)@) == views(old(out)@) + s7_instance_block(*m, type_str@, trait_name@),
{
    let ghost start = views(out@);
    s7_generic_lines(out, m, type_str, trait_name);
    s7_method_lines(out, m, type_str, trait_name);
    if !m.no_shortcut {
        s7_shortcut(out, m, type_str);
    }
    assert(views(out@) =~= start + s7_instance_block(*m, type_str@, trait_name@));
}

fn s7_const(out: &mut Vec<String>, c: &TraitWrapperConst, type_str: &str)
    ensures
        views(final(out)@) == views(old(out)@) + s7_const_block(*c, type_str@),
{
    let ghost start = views(out@);
    push_string(out, concat2("#' @name ", c.doc_name.as_str()));
    push_string(out, concat2("#' @rdname ", type_str));
    push_string(out, concat2(c.target.as_str(), " <- function() {"));
    let builder = DotCallBuilder::new(c.c_ident.as_str());
    let call = builder.build();
    proof {
        assert(builder.all_args() =~= Seq::<Seq<char>>::empty());
    }
    push_string(out, concat2("  ", call.as_str()));
    push_string(out, owned("}"));
    push_string(out, String::new());
    assert(views(out@) =~= start + s7_const_block(*c, type_str@));
}

/// The S7 wrappers of `impl Trait for Type` (see
/// [`trait_s7_wrapper_lines`]); `trait_env_var` is the local env that holds
/// the static methods and constants.
pub fn trait_s7_r_wrapper(
    type_str: &str,
    trait_name: &str,
    trait_env_var: &str,
    methods: &[TraitWrapperMethod],
    consts: &[TraitWrapperConst],
) -> (r: String)
    ensures
        r@ == trait_s7_wrapper_text(type_str@, trait_name@, trait_env_var@, methods@, consts@),
{
    let ghost ms = methods@;
    let ghost cs = consts@;
    let mut lines: Vec<String> = Vec::new();
    push_string(&mut lines, concat4("# S7 trait methods for ", type_str, " implementing ", trait_name));
    push_string(&mut lines, concat4("# Generated by #[miniextendr(s7)] impl ", trait_name, " for ", type_str));
    push_string(&mut lines, String::new());
    push_string(&mut lines, owned("#' @importFrom S7 new_generic method S7_dispatch"));
    push_string(&mut lines, concat4(".s7_class_", type_str, " <- ", type_str));
    push_string(&mut lines, String::new());
    let ghost header = views(lines@);
    let mut any_static = false;
    let mut i: usize = 0;
    while i < methods.len()
        invariant
            i <= ms.len(),
            ms == methods@,
            views(lines@) == header + s7_instance_blocks(ms, type_str@, trait_name@, i as int),
            any_static == exists|k: int| 0 <= k < i && !(#[trigger] ms[k]).has_self,
        decreases ms.len() - i,
    {
        if methods[i].has_self {
            s7_instance(&mut lines, &methods[i], type_str, trait_name);
        } else {
            any_static = true;
        }
        assert(views(lines@) =~= header + s7_instance_blocks(ms, type_str@, trait_name@, i as int + 1));
        i = i + 1;
    }
    let ns = any_static || consts.len() > 0;
    if ns {
        push_string(&mut lines, concat2(trait_env_var, " <- new.env(parent = emptyenv())"));
        push_string(&mut lines, String::new());
    }
    let ghost after_ns = views(lines@);
    let mut j: usize = 0;
    while j < methods.len()
        invariant
            j <= ms.len(),
            ms == methods@,
            views(lines@) == after_ns + s3_static_blocks(ms, trait_name@, j as int),
        decreases ms.len() - j,
    {
        if !methods[j].has_self {
            s3_static(&mut lines, &methods[j], trait_name);
        }
        assert(views(lines@) =~= after_ns + s3_static_blocks(ms, trait_name@, j as int + 1));
        j = j + 1;
    }
    let ghost after_statics = views(lines@);
    let mut k: usize = 0;
    while k < consts.len()
        invariant
            k <= cs.len(),
            cs == consts@,
            views(lines@) == after_statics + s7_const_blocks(cs, type_str@, k as int),
        decreases cs.len() - k,
    {
        s7_const(&mut lines, &consts[k], type_str);
        assert(views(lines@) =~= after_statics + s7_const_blocks(cs, type_str@, k as int + 1));
        k = k + 1;
    }
    if ns {
        let mut attach = concat5("attr(", type_str, ", \"", trait_name, "\") <- ");
        attach.append(trait_env_var);
        push_string(&mut lines, attach);
        push_string(&mut lines, String::new());
    }
    assert(views(lines@) =~= trait_s7_wrapper_lines(type_str@, trait_name@, trait_env_var@, ms, cs));
    join_strings(&lines, "\n")
}

// ---------------------------------------------------------------------------
// S4
// ---------------------------------------------------------------------------

/// The lines of an S4 instance method: its generic (documented, defined
/// only if missing from this namespace) and its `setMethod` (which reads
/// `x@ptr`).
pub open spec fn s4_instance_block(m: TraitWrapperMethod, type_str: Seq<char>, trait_name: Seq<char>) -> Seq<Seq<char>> {
    let g = "s4_trait_"@ + trait_name + "_"@ + m.r_name@;
    seq![
        "#' @description S4 generic for trait method `"@ + trait_name + "::"@ + m.rust_name@ + "`"@,
        "#' @name "@ + g,
        "#' @rdname "@ + type_str,
        "#' @param x A `"@ + type_str + "` object"@,
        "#' @param ... Additional arguments passed to methods"@,
    ] + tag_lines(m.param_tags@) + seq![
        "#' @export"@,
        "if (!exists(\""@ + g + "\", where = topenv(environment()), inherits = FALSE)) methods::setGeneric(\""@ + g
            + "\", function(x, ...) standardGeneric(\""@ + g + "\"))"@,
        Seq::empty(),
    ] + views(m.page_lines@) + comment_lines(views(m.param_tags@)) + seq!["#' @exportMethod "@ + g] + finished(
        seq![
            "methods::setMethod(\""@ + g + "\", \""@ + type_str + "\", function("@ + s3_formals(m.params@) + ") {"@,
            "  .ptr <- x@ptr"@,
        ] + views(m.prelude@) + views(m.ptr_body@),
        m.returns_unit,
        m.invisible,
        "x"@,
    ) + seq!["})"@, Seq::empty()]
}

/// The lines of an S4 static method: an exported standalone function
/// (S4 objects intercept `$<-`).
pub open spec fn s4_static_block(m: TraitWrapperMethod, type_str: Seq<char>, trait_name: Seq<char>) -> Seq<Seq<char>> {
    (if m.describes_in {
        Seq::empty()
    } else {
        seq!["#' Static trait method "@ + trait_name + "::"@ + m.r_name@ + "() for "@ + type_str]
    }) + views(m.page_lines@) + seq!["#' @export"@, m.namespace_target@ + " <- function("@ + m.params@ + ") {"@] + views(
        m.prelude@,
    ) + views(m.body@) + seq!["}"@, Seq::empty()]
}

/// The lines of an S4 constant: an exported standalone function.
pub open spec fn s4_const_block(c: TraitWrapperConst, type_str: Seq<char>) -> Seq<Seq<char>> {
    seq![
        "#' @name "@ + c.target@,
        "#' @rdname "@ + type_str,
        "#' @export"@,
        c.target@ + " <- function() {"@,
        "  "@ + dot_call_text(c.c_ident@, false, Seq::empty()),
        "}"@,
        Seq::empty(),
    ]
}

/// The S4 method blocks of `ms[..n]`: instance methods, or (when
/// `statics`) static methods.
pub open spec fn s4_blocks(ms: Seq<TraitWrapperMethod>, type_str: Seq<char>, trait_name: Seq<char>, statics: bool, n: int) -> Seq<
    Seq<char>,
>
    decreases n,
{
    if n <= 0 || n > ms.len() {
        Seq::empty()
    } else {
        s4_blocks(ms, type_str, trait_name, statics, n - 1) + if ms[n - 1].has_self == statics {
            Seq::empty()
        } else if statics {
            s4_static_block(ms[n - 1], type_str, trait_name)
        } else {
            s4_instance_block(ms[n - 1], type_str, trait_name)
        }
    }
}

/// The S4 constant blocks of `cs[..n]`.
pub open spec fn s4_const_blocks(cs: Seq<TraitWrapperConst>, type_str: Seq<char>, n: int) -> Seq<Seq<char>>
    decreases n,
{
    if n <= 0 || n > cs.len() {
        Seq::empty()
    } else {
        s4_const_blocks(cs, type_str, n - 1) + s4_const_block(cs[n - 1], type_str)
    }
}

/// The lines of the S4 wrappers of `impl Trait for Type`: a header, the
/// instance methods, the static methods, the constants.
pub open spec fn trait_s4_wrapper_lines(
    type_str: Seq<char>,
    trait_name: Seq<char>,
    ms: Seq<TraitWrapperMethod>,
    cs: Seq<TraitWrapperConst>,
) -> Seq<Seq<char>> {
    seq![
        "# S4 trait methods for "@ + type_str + " implementing "@ + trait_name,
        "# Generated by #[miniextendr(s4)] impl "@ + trait_name + " for "@ + type_str,
        Seq::empty(),
        "#' @importFrom methods setGeneric setMethod"@,
        Seq::empty(),
    ] + s4_blocks(ms, type_str, trait_name, false, ms.len() as int) + s4_blocks(
        ms,
        type_str,
        trait_name,
        true,
        ms.len() as int,
    ) + s4_const_blocks(cs, type_str, cs.len() as int)
}

fn s4_generic_lines(out: &mut Vec<String>, m: &TraitWrapperMethod, type_str: &str, trait_name: &str, g: &str)
    ensures
        views(final(out)@) == views(old(out)@) + seq![
            "#' @description S4 generic for trait method `"@ + trait_name@ + "::"@ + m.rust_name@ + "`"@,
            "#' @name "@ + g@,
            "#' @rdname "@ + type_str@,
            "#' @param x A `"@ + type_str@ + "` object"@,
            "#' @param ... Additional arguments passed to methods"@,
        ] + tag_lines(m.param_tags@) + seq![
            "#' @export"@,
            "if (!exists(\""@ + g@ + "\", where = topenv(environment()), inherits = FALSE)) methods::setGeneric(\""@ + g@
                + "\", function(x, ...) standardGeneric(\""@ + g@ + "\"))"@,
            Seq::empty(),
        ],
{
    let ghost start = views(out@);
    push_string(out, concat5("#' @description S4 generic for trait method `", trait_name, "::", m.rust_name.as_str(), "`"));
    push_string(out, concat2("#' @name ", g));
    push_string(out, concat2("#' @rdname ", type_str));
    push_string(out, concat3("#' @param x A `", type_str, "` object"));
    push_string(out, owned("#' @param ... Additional arguments passed to methods"));
    push_tag_lines(out, &m.param_tags);
    push_string(out, owned("#' @export"));
    let mut guard = concat5("if (!exists(\"", g, "\", where = topenv(environment()), inherits = FALSE)) methods::setGeneric(\"", g, "\", function(x, ...) standardGeneric(\"");
    guard.append(g);
    guard.append("\"))");
    push_string(out, guard);
    push_string(out, String::new());
}

fn s4_instance(out: &mut Vec<String>, m: &TraitWrapperMethod, type_str: &str, trait_name: &str)
    ensures
        views(final(out)@) == views(old(out)@) + s4_instance_block(*m, type_str@, trait_name@),
{
    let ghost start = views(out@);
    let g = concat4("s4_trait_", trait_name, "_", m.r_name.as_str());
    let gs = g.as_str();
    s4_generic_lines(out, m, type_str, trait_name, gs);
    extend_lines(out, &m.page_lines);
    push_roxygen_tags(out, m.param_tags.as_slice());
    push_string(out, concat2("#' @exportMethod ", gs));
    let formals = if m.params.unicode_len() == 0 {
        owned("x, ...")
    } else {
        concat3("x, ", m.params.as_str(), ", ...")
    };
    let mut body: Vec<String> = Vec::new();
    let mut head = concat5("methods::setMethod(\"", gs, "\", \"", type_str, "\", function(");
    head.append(formals.as_str());
    head.append(") {");
    push_string(&mut body, head);
    push_string(&mut body, owned("  .ptr <- x@ptr"));
    extend_lines(&mut body, &m.prelude);
    extend_lines(&mut body, &m.ptr_body);
    proof {
        assert(formals@ == s3_formals(m.params@));
    }
    finish_instance_body(&mut body, m.returns_unit, m.invisible, "x");
    extend_lines(out, &body);
    push_string(out, owned("})"));
    push_string(out, String::new());
    assert(views(out@) =~= start + s4_instance_block(*m, type_str@, trait_name@));
}

fn s4_static(out: &mut Vec<String>, m: &TraitWrapperMethod, type_str: &str, trait_name: &str)
    ensures
        views(final(out)@) == views(old(out)@) + s4_static_block(*m, type_str@, trait_name@),
{
    let ghost start = views(out@);
    if !m.describes_in {
        let mut first = concat4("#' Static trait method ", trait_name, "::", m.r_name.as_str());
        first.append("() for ");
        first.append(type_str);
        push_string(out, first);
    }
    extend_lines(out, &m.page_lines);
    push_string(out, owned("#' @export"));
    push_string(out, concat4(m.namespace_target.as_str(), " <- function(", m.params.as_str(), ") {"));
    extend_lines(out, &m.prelude);
    extend_lines(out, &m.body);
    push_string(out, owned("}"));
    push_string(out, String::new());
    assert(views(out@) =~= start + s4_static_block(*m, type_str@, trait_name@));
}

fn s4_const(out: &mut Vec<String>, c: &TraitWrapperConst, type_str: &str)
    ensures
        views(final(out)@) == views(old(out)@) + s4_const_block(*c, type_str@),
{
    let ghost start = views(out@);
    push_string(out, concat2("#' @name ", c.target.as_str()));
    push_string(out, concat2("#' @rdname ", type_str));
    push_string(out, owned("#' @export"));
    push_string(out, concat2(c.target.as_str(), " <- function() {"));
    let builder = DotCallBuilder::new(c.c_ident.as_str());
    let call = builder.build();
    proof {
        assert(builder.all_args() =~= Seq::<Seq<char>>::empty());
    }
    push_string(out, concat2("  ", call.as_str()));
    push_string(out, owned("}"));
    push_string(out, String::new());
    assert(views(out@) =~= start + s4_const_block(*c, type_str@));
}

/// The S4 wrappers of `impl Trait for Type` (see
/// [`trait_s4_wrapper_lines`]).
pub fn trait_s4_r_wrapper(
    type_str: &str,
    trait_name: &str,
    methods: &[TraitWrapperMethod],
    consts: &[TraitWrapperConst],
) -> (r: String)
    ensures
        r@ == join(trait_s4_wrapper_lines(type_str@, trait_name@, methods@, consts@), "\n"@),
{
    let ghost ms = methods@;
    let ghost cs = consts@;
    let mut lines: Vec<String> = Vec::new();
    push_string(&mut lines, concat4("# S4 trait methods for ", type_str, " implementing ", trait_name));
    push_string(&mut lines, concat4("# Generated by #[miniextendr(s4)] impl ", trait_name, " for ", type_str));
    push_string(&mut lines, String::new());
    push_string(&mut lines, owned("#' @importFrom methods setGeneric setMethod"));
    push_string(&mut lines, String::new());
    let ghost header = views(lines@);
    let mut i: usize = 0;
    while i < methods.len()
        invariant
            i <= ms.len(),
            ms == methods@,
            views(lines@) == header + s4_blocks(ms, type_str@, trait_name@, false, i as int),
        decreases ms.len() - i,
    {
        if methods[i].has_self {
            s4_instance(&mut lines, &methods[i], type_str, trait_name);
        }
        assert(views(lines@) =~= header + s4_blocks(ms, type_str@, trait_name@, false, i as int + 1));
        i = i + 1;
    }
    let ghost after_instances = views(lines@);
    let mut j: usize = 0;
    while j < methods.len()
        invariant
            j <= ms.len(),
            ms == methods@,
            views(lines@) == after_instances + s4_blocks(ms, type_str@, trait_name@, true, j as int),
        decreases ms.len() - j,
    {
        if !methods[j].has_self {
            s4_static(&mut lines, &methods[j], type_str, trait_name);
        }
        assert(views(lines@) =~= after_instances + s4_blocks(ms, type_str@, trait_name@, true, j as int + 1));
        j = j + 1;
    }
    let ghost after_statics = views(lines@);
    let mut k: usize = 0;
    while k < consts.len()
        invariant
            k <= cs.len(),
            cs == consts@,
            views(lines@) == after_statics + s4_const_blocks(cs, type_str@, k as int),
        decreases cs.len() - k,
    {
        s4_const(&mut lines, &consts[k], type_str);
        assert(views(lines@) =~= after_statics + s4_const_blocks(cs, type_str@, k as int + 1));
        k = k + 1;
    }
    assert(views(lines@) =~= trait_s4_wrapper_lines(type_str@, trait_name@, ms, cs));
    join_strings(&lines, "\n")
}

// ---------------------------------------------------------------------------
// R6 and environment classes
// ---------------------------------------------------------------------------

/// The formals of a namespace instance method: the receiver `x`, then the
/// method's own.
pub open spec fn x_formals(params: Seq<char>) -> Seq<char> {
    if params.len() == 0 {
        "x"@
    } else {
        "x, "@ + params
    }
}

/// The lines of an R6 instance method, a member of the `Type$Trait`
/// namespace that reads the object's private pointer.
pub open spec fn r6_instance_block(m: TraitWrapperMethod) -> Seq<Seq<char>> {
    views(m.page_lines@) + finished(
        seq![
            m.namespace_target@ + " <- function("@ + x_formals(m.params@) + ") {"@,
            "  .ptr <- x$.__enclos_env__$private$.ptr"@,
        ] + views(m.prelude@) + views(m.ptr_body@),
        m.returns_unit,
        m.invisible,
        "x"@,
    ) + seq!["}"@, Seq::empty()]
}

/// The R6 instance blocks of `ms[..n]`.
pub open spec fn r6_instance_blocks(ms: Seq<TraitWrapperMethod>, n: int) -> Seq<Seq<char>>
    decreases n,
{
    if n <= 0 || n > ms.len() {
        Seq::empty()
    } else {
        r6_instance_blocks(ms, n - 1) + if ms[n - 1].has_self {
            r6_instance_block(ms[n - 1])
        } else {
            Seq::empty()
        }
    }
}

/// The lines of the R6 wrappers of `impl Trait for Type`: every method and
/// constant lives in the `Type$Trait` namespace.
pub open spec fn trait_r6_wrapper_lines(
    type_str: Seq<char>,
    trait_name: Seq<char>,
    ms: Seq<TraitWrapperMethod>,
    cs: Seq<TraitWrapperConst>,
) -> Seq<Seq<char>> {
    seq![
        "# R6 trait methods for "@ + type_str + " implementing "@ + trait_name,
        "# Generated by #[miniextendr(r6)] impl "@ + trait_name + " for "@ + type_str,
        "# Note: R6 trait methods live in the Type$Trait$method namespace"@,
        Seq::empty(),
    ] + (if ms.len() > 0 || cs.len() > 0 {
        seq![type_str + "$"@ + trait_name + " <- new.env(parent = emptyenv())"@, Seq::empty()]
    } else {
        Seq::empty()
    }) + r6_instance_blocks(ms, ms.len() as int) + s3_static_blocks(ms, trait_name, ms.len() as int) + s3_const_blocks(
        cs,
        type_str,
        cs.len() as int,
    )
}

fn r6_instance(out: &mut Vec<String>, m: &TraitWrapperMethod)
    ensures
        views(final(out)@) == views(old(out)@) + r6_instance_block(*m),
{
    let ghost start = views(out@);
    extend_lines(out, &m.page_lines);
    let formals = if m.params.unicode_len() == 0 {
        owned("x")
    } else {
        concat2("x, ", m.params.as_str())
    };
    let mut body: Vec<String> = Vec::new();
    push_string(&mut body, concat4(m.namespace_target.as_str(), " <- function(", formals.as_str(), ") {"));
    push_string(&mut body, owned("  .ptr <- x$.__enclos_env__$private$.ptr"));
    extend_lines(&mut body, &m.prelude);
    extend_lines(&mut body, &m.ptr_body);
    proof {
        assert(formals@ == x_formals(m.params@));
    }
    finish_instance_body(&mut body, m.returns_unit, m.invisible, "x");
    extend_lines(out, &body);
    push_string(out, owned("}"));
    push_string(out, String::new());
    assert(views(out@) =~= start + r6_instance_block(*m));
}

/// The R6 wrappers of `impl Trait for Type` (see
/// [`trait_r6_wrapper_lines`]).
pub fn trait_r6_r_wrapper(
    type_str: &str,
    trait_name: &str,
    methods: &[TraitWrapperMethod],
    consts: &[TraitWrapperConst],
) -> (r: String)
    ensures
        r@ == join(trait_r6_wrapper_lines(type_str@, trait_name@, methods@, consts@), "\n"@),
{
    let ghost ms = methods@;
    let ghost cs = consts@;
    let mut lines: Vec<String> = Vec::new();
    push_string(&mut lines, concat4("# R6 trait methods for ", type_str, " implementing ", trait_name));
    push_string(&mut lines, concat4("# Generated by #[miniextendr(r6)] impl ", trait_name, " for ", type_str));
    push_string(&mut lines, owned("# Note: R6 trait methods live in the Type$Trait$method namespace"));
    push_string(&mut lines, String::new());
    if methods.len() > 0 || consts.len() > 0 {
        push_string(&mut lines, concat4(type_str, "$", trait_name, " <- new.env(parent = emptyenv())"));
        push_string(&mut lines, String::new());
    }
    let ghost header = views(lines@);
    let mut i: usize = 0;
    while i < methods.len()
        invariant
            i <= ms.len(),
            ms == methods@,
            views(lines@) == header + r6_instance_blocks(ms, i as int),
        decreases ms.len() - i,
    {
        if methods[i].has_self {
            r6_instance(&mut lines, &methods[i]);
        }
        assert(views(lines@) =~= header + r6_instance_blocks(ms, i as int + 1));
        i = i + 1;
    }
    let ghost after_instances = views(lines@);
    let mut j: usize = 0;
    while j < methods.len()
        invariant
            j <= ms.len(),
            ms == methods@,
            views(lines@) == after_instances + s3_static_blocks(ms, trait_name@, j as int),
        decreases ms.len() - j,
    {
        if !methods[j].has_self {
            s3_static(&mut lines, &methods[j], trait_name);
        }
        assert(views(lines@) =~= after_instances + s3_static_blocks(ms, trait_name@, j as int + 1));
        j = j + 1;
    }
    let ghost after_statics = views(lines@);
    let mut k: usize = 0;
    while k < consts.len()
        invariant
            k <= cs.len(),
            cs == consts@,
            views(lines@) == after_statics + s3_const_blocks(cs, type_str@, k as int),
        decreases cs.len() - k,
    {
        s3_const(&mut lines, &consts[k], type_str);
        assert(views(lines@) =~= after_statics + s3_const_blocks(cs, type_str@, k as int + 1));
        k = k + 1;
    }
    assert(views(lines@) =~= trait_r6_wrapper_lines(type_str@, trait_name@, ms, cs));
    join_strings(&lines, "\n")
}

/// The lines of an environment-class method in the `Type$Trait`
/// namespace; an instance method takes the object as `x`, returns it when
/// the method returns `()`, and is stamped for `$` dispatch.
pub open spec fn env_method_block(m: TraitWrapperMethod) -> Seq<Seq<char>> {
    let head = seq![
        m.namespace_target@ + " <- function("@ + (if m.has_self {
            x_formals(m.params@)
        } else {
            m.params@
        }) + ") {"@,
    ] + views(m.prelude@) + views(m.body@);
    views(m.page_lines@) + (if m.has_self {
        finished(head, m.returns_unit, m.invisible, "x"@)
    } else {
        head
    }) + seq!["}"@] + (if m.has_self {
        seq!["attr("@ + m.namespace_target@ + ", \".__mx_instance__\") <- TRUE"@]
    } else {
        Seq::empty()
    }) + seq![Seq::empty()]
}

/// The environment-class blocks of `ms[..n]`.
pub open spec fn env_method_blocks(ms: Seq<TraitWrapperMethod>, n: int) -> Seq<Seq<char>>
    decreases n,
{
    if n <= 0 || n > ms.len() {
        Seq::empty()
    } else {
        env_method_blocks(ms, n - 1) + env_method_block(ms[n - 1])
    }
}

/// Whether an instance method has a parameter named `x`, which would hide
/// the object.
pub open spec fn shadows_receiver(m: TraitWrapperMethod) -> bool {
    m.has_self && exists|j: int| 0 <= j < m.param_names@.len() && (#[trigger] m.param_names@[j])@ == "x"@
}

/// The error for an instance method with a parameter named `x`.
pub open spec fn receiver_clash_message() -> Seq<char> {
    "trait instance method parameter cannot be named `x` (collides with self parameter in env-class dispatch)"@
}

/// The lines of the environment-class wrappers of `impl Trait for Type`:
/// the `Type$Trait` namespace, every method in order, the constants.
pub open spec fn trait_env_wrapper_lines(
    type_str: Seq<char>,
    trait_name: Seq<char>,
    ms: Seq<TraitWrapperMethod>,
    cs: Seq<TraitWrapperConst>,
) -> Seq<Seq<char>> {
    seq![
        "# Trait methods and consts for "@ + type_str + " implementing "@ + trait_name,
        "# Generated by #[miniextendr] impl "@ + trait_name + " for "@ + type_str,
        Seq::empty(),
        type_str + "$"@ + trait_name + " <- new.env(parent = emptyenv())"@,
        Seq::empty(),
    ] + env_method_blocks(ms, ms.len() as int) + s3_const_blocks(cs, type_str, cs.len() as int)
}

fn names_x(m: &TraitWrapperMethod) -> (r: bool)
    ensures
        r == shadows_receiver(*m),
{
    if !m.has_self {
        return false;
    }
    let mut j: usize = 0;
    while j < m.param_names.len()
        invariant
            m.has_self,
            j <= m.param_names@.len(),
            forall|q: int| 0 <= q < j ==> (#[trigger] m.param_names@[q])@ != "x"@,
        decreases m.param_names@.len() - j,
    {
        if str_eq(m.param_names[j].as_str(), "x") {
            return true;
        }
        j = j + 1;
    }
    false
}

fn env_method(out: &mut Vec<String>, m: &TraitWrapperMethod)
    ensures
        views(final(out)@) == views(old(out)@) + env_method_block(*m),
{
    let ghost start = views(out@);
    extend_lines(out, &m.page_lines);
    let formals = if !m.has_self {
        owned(m.params.as_str())
    } else if m.params.unicode_len() == 0 {
        owned("x")
    } else {
        concat2("x, ", m.params.as_str())
    };
    let mut body: Vec<String> = Vec::new();
    push_string(&mut body, concat4(m.namespace_target.as_str(), " <- function(", formals.as_str(), ") {"));
    extend_lines(&mut body, &m.prelude);
    extend_lines(&mut body, &m.body);
    proof {
        assert(formals@ == (if m.has_self {
            x_formals(m.params@)
        } else {
            m.params@
        }));
    }
    if m.has_self {
        finish_instance_body(&mut body, m.returns_unit, m.invisible, "x");
    }
    extend_lines(out, &body);
    push_string(out, owned("}"));
    if m.has_self {
        push_string(out, concat3("attr(", m.namespace_target.as_str(), ", \".__mx_instance__\") <- TRUE"));
    }
    push_string(out, String::new());
    assert(views(out@) =~= start + env_method_block(*m));
}

/// The environment-class wrappers of `impl Trait for Type` (see
/// [`trait_env_wrapper_lines`]); refused when an instance method has a
/// parameter named `x`.
pub fn trait_env_r_wrapper(
    type_str: &str,
    trait_name: &str,
    methods: &[TraitWrapperMethod],
    consts: &[TraitWrapperConst],
) -> (r: Result<String, String>)
    ensures
        match r {
            Ok(text) => !(exists|k: int| 0 <= k < methods@.len() && shadows_receiver(#[trigger] methods@[k])) && text@
                == join(trait_env_wrapper_lines(type_str@, trait_name@, methods@, consts@), "\n"@),
            Err(m) => (exists|k: int| 0 <= k < methods@.len() && shadows_receiver(#[trigger] methods@[k])) && m@
                == receiver_clash_message(),
        },
{
    let ghost ms = methods@;
    let ghost cs = consts@;
    let mut lines: Vec<String> = Vec::new();
    push_string(&mut lines, concat4("# Trait methods and consts for ", type_str, " implementing ", trait_name));
    push_string(&mut lines, concat4("# Generated by #[miniextendr] impl ", trait_name, " for ", type_str));
    push_string(&mut lines, String::new());
    push_string(&mut lines, concat4(type_str, "$", trait_name, " <- new.env(parent = emptyenv())"));
    push_string(&mut lines, String::new());
    let ghost header = views(lines@);
    let mut i: usize = 0;
    while i < methods.len()
        invariant
            i <= ms.len(),
            ms == methods@,
            views(lines@) == header + env_method_blocks(ms, i as int),
            forall|k: int| 0 <= k < i ==> !shadows_receiver(#[trigger] ms[k]),
        decreases ms.len() - i,
    {
        if names_x(&methods[i]) {
            return Err(
                owned(
                    "trait instance method parameter cannot be named `x` (collides with self parameter in env-class dispatch)",
                ),
            );
        }
        env_method(&mut lines, &methods[i]);
        assert(views(lines@) =~= header + env_method_blocks(ms, i as int + 1));
        i = i + 1;
    }
    let ghost after_methods = views(lines@);
    let mut k: usize = 0;
    while k < consts.len()
        invariant
            k <= cs.len(),
            cs == consts@,
            views(lines@) == after_methods + s3_const_blocks(cs, type_str@, k as int),
        decreases cs.len() - k,
    {
        s3_const(&mut lines, &consts[k], type_str);
        assert(views(lines@) =~= after_methods + s3_const_blocks(cs, type_str@, k as int + 1));
        k = k + 1;
    }
    assert(views(lines@) =~= trait_env_wrapper_lines(type_str@, trait_name@, ms, cs));
    Ok(join_strings(&lines, "\n"))
}

// ---------------------------------------------------------------------------
// Dispatch by class system
// ---------------------------------------------------------------------------

/// The class system's name in diagnostics.
pub open spec fn system_label(c: ClassSystem) -> Seq<char> {
    match c {
        ClassSystem::S3 => "S3"@,
        ClassSystem::Vctrs => "vctrs"@,
        ClassSystem::S4 => "S4"@,
        ClassSystem::S7 => "S7"@,
        ClassSystem::Env => "Env"@,
        ClassSystem::R6 => "R6"@,
    }
}

/// Whether roxygen2 can list the method's own block in a `@describeIn`
/// destination: it must document an R function object (S3 / vctrs and S4
/// instance methods, S4 static methods, S7 instance methods with a
/// shortcut).
pub open spec fn describe_in_supported(m: TraitWrapperMethod, c: ClassSystem) -> bool {
    match c {
        ClassSystem::S3 => m.has_self,
        ClassSystem::Vctrs => m.has_self,
        ClassSystem::S4 => true,
        ClassSystem::S7 => m.has_self && !m.no_shortcut,
        ClassSystem::Env => false,
        ClassSystem::R6 => false,
    }
}

/// The error for a `@describeIn` that roxygen2 cannot honour on a method.
pub open spec fn describe_in_error(m: TraitWrapperMethod, c: ClassSystem) -> Seq<char> {
    let kind = if m.has_self {
        "instance method"@
    } else {
        "static method"@
    };
    let qualifier = if m.has_self && c == ClassSystem::S7 {
        " without a fast-path shortcut"@
    } else {
        Seq::empty()
    };
    "`@describeIn` is not supported on the "@ + system_label(c) + " trait "@ + kind + " `"@ + m.rust_name@ + "`"@
        + qualifier
        + ": its R wrapper is not an R function roxygen2 can list in the destination's \"Functions\" section, so roxygen2 would drop the block. Use `@rdname <topic>` to document it on that page instead. On trait impls `@describeIn` works on S3, vctrs and S4 instance methods, on S4 static methods, and on S7 instance methods with a fast-path shortcut."@
}

/// The `@describeIn` errors of `ms[..n]`, in order.
pub open spec fn describe_in_errors(ms: Seq<TraitWrapperMethod>, c: ClassSystem, n: int) -> Seq<Seq<char>>
    decreases n,
{
    if n <= 0 || n > ms.len() {
        Seq::empty()
    } else {
        describe_in_errors(ms, c, n - 1) + if ms[n - 1].describes_in && !describe_in_supported(ms[n - 1], c) {
            seq![describe_in_error(ms[n - 1], c)]
        } else {
            Seq::empty()
        }
    }
}

fn system_name(c: ClassSystem) -> (r: &'static str)
    ensures
        r@ == system_label(c),
{
    match c {
        ClassSystem::S3 => "S3",
        ClassSystem::Vctrs => "vctrs",
        ClassSystem::S4 => "S4",
        ClassSystem::S7 => "S7",
        ClassSystem::Env => "Env",
        ClassSystem::R6 => "R6",
    }
}

/// The `@describeIn` tags that roxygen2 cannot honour on the trait's
/// wrappers, one error per method (empty when there is none).
pub fn reject_unsupported_describe_in(methods: &[TraitWrapperMethod], class_system: ClassSystem) -> (r: Vec<String>)
    ensures
        views(r@) == describe_in_errors(methods@, class_system, methods@.len() as int),
{
    let mut errors: Vec<String> = Vec::new();
    let mut i: usize = 0;
    while i < methods.len()
        invariant
            i <= methods@.len(),
            views(errors@) == describe_in_errors(methods@, class_system, i as int),
        decreases methods@.len() - i,
    {
        let m = &methods[i];
        let supported = match class_system {
            ClassSystem::S3 => m.has_self,
            ClassSystem::Vctrs => m.has_self,
            ClassSystem::S4 => true,
            ClassSystem::S7 => m.has_self && !m.no_shortcut,
            ClassSystem::Env => false,
            ClassSystem::R6 => false,
        };
        if m.describes_in && !supported {
            let kind = if m.has_self {
                "instance method"
            } else {
                "static method"
            };
            let qualifier = match class_system {
                ClassSystem::S7 => if m.has_self {
                    " without a fast-path shortcut"
                } else {
                    ""
                },
                _ => "",
            };
            let mut e = concat5("`@describeIn` is not supported on the ", system_name(class_system), " trait ", kind, " `");
            e.append(m.rust_name.as_str());
            e.append("`");
            e.append(qualifier);
            e.append(
                ": its R wrapper is not an R function roxygen2 can list in the destination's \"Functions\" section, so roxygen2 would drop the block. Use `@rdname <topic>` to document it on that page instead. On trait impls `@describeIn` works on S3, vctrs and S4 instance methods, on S4 static methods, and on S7 instance methods with a fast-path shortcut.",
            );
            proof {
                reveal_strlit("");
                assert(qualifier@ == (if m.has_self && class_system == ClassSystem::S7 {
                    " without a fast-path shortcut"@
                } else {
                    Seq::<char>::empty()
                }));
            }
            push_string(&mut errors, e);
        }
        assert(views(errors@) =~= describe_in_errors(methods@, class_system, i as int + 1));
        i = i + 1;
    }
    errors
}

/// The wrapper lines of a class system, before the export options: S3 and
/// vctrs share the S3 layout; `None` for an environment class whose
/// instance method has a parameter named `x`.
pub open spec fn system_wrapper_text(
    type_str: Seq<char>,
    trait_name: Seq<char>,
    trait_env_var: Seq<char>,
    ms: Seq<TraitWrapperMethod>,
    cs: Seq<TraitWrapperConst>,
    c: ClassSystem,
) -> Option<Seq<char>> {
    match c {
        ClassSystem::Env => if exists|k: int| 0 <= k < ms.len() && shadows_receiver(#[trigger] ms[k]) {
            None
        } else {
            Some(join(trait_env_wrapper_lines(type_str, trait_name, ms, cs), "\n"@))
        },
        ClassSystem::S3 => Some(trait_s3_wrapper_text(type_str, trait_name, ms, cs)),
        ClassSystem::Vctrs => Some(trait_s3_wrapper_text(type_str, trait_name, ms, cs)),
        ClassSystem::S4 => Some(join(trait_s4_wrapper_lines(type_str, trait_name, ms, cs), "\n"@)),
        ClassSystem::S7 => Some(trait_s7_wrapper_text(type_str, trait_name, trait_env_var, ms, cs)),
        ClassSystem::R6 => Some(join(trait_r6_wrapper_lines(type_str, trait_name, ms, cs), "\n"@)),
    }
}

/// The R wrappers of `impl Trait for Type` for the class system of `opts`,
/// after its export and documentation options. Refused with the
/// `@describeIn` errors first, then with the receiver clash of an
/// environment class.
pub fn generate_trait_r_wrapper(
    type_str: &str,
    trait_name: &str,
    trait_env_var: &str,
    methods: &[TraitWrapperMethod],
    consts: &[TraitWrapperConst],
    opts: TraitWrapperOpts,
) -> (r: Result<String, Vec<String>>)
    ensures
        ({
            let errs = describe_in_errors(methods@, opts.class_system, methods@.len() as int);
            let text = system_wrapper_text(type_str@, trait_name@, trait_env_var@, methods@, consts@, opts.class_system);
            match r {
                Ok(out) => errs.len() == 0 && (text matches Some(t) && out@ == wrapper_output(t, opts)),
                Err(e) => if errs.len() > 0 {
                    views(e@) == errs
                } else {
                    text is None && views(e@) == seq![receiver_clash_message()]
                },
            }
        }),
{
    let errors = reject_unsupported_describe_in(methods, opts.class_system);
    if errors.len() > 0 {
        return Err(errors);
    }
    let text = match opts.class_system {
        ClassSystem::Env => match trait_env_r_wrapper(type_str, trait_name, methods, consts) {
            Ok(t) => t,
            Err(m) => {
                let mut e: Vec<String> = Vec::new();
                push_string(&mut e, m);
                assert(views(e@) =~= seq![receiver_clash_message()]);
                return Err(e);
            },
        },
        ClassSystem::S3 => trait_s3_r_wrapper(type_str, trait_name, methods, consts),
        ClassSystem::Vctrs => trait_s3_r_wrapper(type_str, trait_name, methods, consts),
        ClassSystem::S4 => trait_s4_r_wrapper(type_str, trait_name, methods, consts),
        ClassSystem::S7 => trait_s7_r_wrapper(type_str, trait_name, trait_env_var, methods, consts),
        ClassSystem::R6 => trait_r6_r_wrapper(type_str, trait_name, methods, consts),
    };
    Ok(apply_trait_wrapper_opts(text.as_str(), opts))
}

// ---------------------------------------------------------------------------
// Laws
// ---------------------------------------------------------------------------

proof fn lemma_concat_contains(a: Seq<Seq<char>>, b: Seq<Seq<char>>, line: Seq<char>)
    ensures
        a.contains(line) ==> (a + b).contains(line),
        b.contains(line) ==> (a + b).contains(line),
{
    if a.contains(line) {
        let i = choose|i: int| 0 <= i < a.len() && a[i] == line;
        assert((a + b)[i] == line);
    }
    if b.contains(line) {
        let i = choose|i: int| 0 <= i < b.len() && b[i] == line;
        assert((a + b)[a.len() + i] == line);
    }
}

/// The first line of an instance body survives its end being finished,
/// as long as another line follows it.
proof fn lemma_finished_keeps_head(ls: Seq<Seq<char>>, returns_unit: bool, invisible: bool, receiver: Seq<char>)
    requires
        ls.len() >= 2,
    ensures
        finished(ls, returns_unit, invisible, receiver).len() >= 2,
        finished(ls, returns_unit, invisible, receiver)[0] == ls[0],
{
}

proof fn lemma_static_blocks_define(ms: Seq<TraitWrapperMethod>, trait_name: Seq<char>, n: int, k: int)
    requires
        0 <= k < n <= ms.len(),
        !ms[k].has_self,
    ensures
        s3_static_blocks(ms, trait_name, n).contains(ms[k].namespace_target@ + " <- function("@ + ms[k].params@ + ") {"@),
    decreases n,
{
    let line = ms[k].namespace_target@ + " <- function("@ + ms[k].params@ + ") {"@;
    let prev = s3_static_blocks(ms, trait_name, n - 1);
    let last = if ms[n - 1].has_self {
        Seq::empty()
    } else {
        s3_static_block(ms[n - 1], trait_name)
    };
    if k < n - 1 {
        lemma_static_blocks_define(ms, trait_name, n - 1, k);
    } else {
        assert(last[1 + ms[k].page_lines@.len() as int] == line);
    }
    lemma_concat_contains(prev, last, line);
}

proof fn lemma_s4_static_blocks_define(ms: Seq<TraitWrapperMethod>, type_str: Seq<char>, trait_name: Seq<char>, n: int, k: int)
    requires
        0 <= k < n <= ms.len(),
        !ms[k].has_self,
    ensures
        s4_blocks(ms, type_str, trait_name, true, n).contains(
            ms[k].namespace_target@ + " <- function("@ + ms[k].params@ + ") {"@,
        ),
    decreases n,
{
    let line = ms[k].namespace_target@ + " <- function("@ + ms[k].params@ + ") {"@;
    let prev = s4_blocks(ms, type_str, trait_name, true, n - 1);
    let last = if ms[n - 1].has_self == true {
        Seq::empty()
    } else {
        s4_static_block(ms[n - 1], type_str, trait_name)
    };
    if k < n - 1 {
        lemma_s4_static_blocks_define(ms, type_str, trait_name, n - 1, k);
    } else {
        let lead: int = if ms[k].describes_in {
            0
        } else {
            1
        };
        assert(last[lead + ms[k].page_lines@.len() as int + 1] == line);
    }
    lemma_concat_contains(prev, last, line);
}

proof fn lemma_r6_instance_blocks_define(ms: Seq<TraitWrapperMethod>, n: int, k: int)
    requires
        0 <= k < n <= ms.len(),
        ms[k].has_self,
    ensures
        r6_instance_blocks(ms, n).contains(ms[k].namespace_target@ + " <- function("@ + x_formals(ms[k].params@) + ") {"@),
    decreases n,
{
    let m = ms[k];
    let line = m.namespace_target@ + " <- function("@ + x_formals(m.params@) + ") {"@;
    let prev = r6_instance_blocks(ms, n - 1);
    let last = if ms[n - 1].has_self {
        r6_instance_block(ms[n - 1])
    } else {
        Seq::empty()
    };
    if k < n - 1 {
        lemma_r6_instance_blocks_define(ms, n - 1, k);
    } else {
        let head = seq![line, "  .ptr <- x$.__enclos_env__$private$.ptr"@] + views(m.prelude@) + views(m.ptr_body@);
        lemma_finished_keeps_head(head, m.returns_unit, m.invisible, "x"@);
        assert(last[m.page_lines@.len() as int] == line);
    }
    lemma_concat_contains(prev, last, line);
}

proof fn lemma_env_static_blocks_define(ms: Seq<TraitWrapperMethod>, n: int, k: int)
    requires
        0 <= k < n <= ms.len(),
        !ms[k].has_self,
    ensures
        env_method_blocks(ms, n).contains(ms[k].namespace_target@ + " <- function("@ + ms[k].params@ + ") {"@),
    decreases n,
{
    let line = ms[k].namespace_target@ + " <- function("@ + ms[k].params@ + ") {"@;
    let prev = env_method_blocks(ms, n - 1);
    let last = env_method_block(ms[n - 1]);
    if k < n - 1 {
        lemma_env_static_blocks_define(ms, n - 1, k);
    } else {
        assert(last[ms[k].page_lines@.len() as int] == line);
    }
    lemma_concat_contains(prev, last, line);
}

proof fn lemma_s3_const_blocks_define(cs: Seq<TraitWrapperConst>, type_str: Seq<char>, n: int, k: int)
    requires
        0 <= k < n <= cs.len(),
    ensures
        s3_const_blocks(cs, type_str, n).contains(cs[k].target@ + " <- function() {"@),
    decreases n,
{
    let line = cs[k].target@ + " <- function() {"@;
    if k < n - 1 {
        lemma_s3_const_blocks_define(cs, type_str, n - 1, k);
    } else {
        assert(s3_const_block(cs[k], type_str)[2] == line);
    }
    lemma_concat_contains(s3_const_blocks(cs, type_str, n - 1), s3_const_block(cs[n - 1], type_str), line);
}

proof fn lemma_s7_const_blocks_define(cs: Seq<TraitWrapperConst>, type_str: Seq<char>, n: int, k: int)
    requires
        0 <= k < n <= cs.len(),
    ensures
        s7_const_blocks(cs, type_str, n).contains(cs[k].target@ + " <- function() {"@),
    decreases n,
{
    let line = cs[k].target@ + " <- function() {"@;
    if k < n - 1 {
        lemma_s7_const_blocks_define(cs, type_str, n - 1, k);
    } else {
        assert(s7_const_block(cs[k], type_str)[2] == line);
    }
    lemma_concat_contains(s7_const_blocks(cs, type_str, n - 1), s7_const_block(cs[n - 1], type_str), line);
}

proof fn lemma_s4_const_blocks_define(cs: Seq<TraitWrapperConst>, type_str: Seq<char>, n: int, k: int)
    requires
        0 <= k < n <= cs.len(),
    ensures
        s4_const_blocks(cs, type_str, n).contains(cs[k].target@ + " <- function() {"@),
    decreases n,
{
    let line = cs[k].target@ + " <- function() {"@;
    if k < n - 1 {
        lemma_s4_const_blocks_define(cs, type_str, n - 1, k);
    } else {
        assert(s4_const_block(cs[k], type_str)[3] == line);
    }
    lemma_concat_contains(s4_const_blocks(cs, type_str, n - 1), s4_const_block(cs[n - 1], type_str), line);
}

/// In the R6 wrappers of `impl Trait for Type` every member has its own
/// function in the `Type$Trait` namespace: a method without a receiver is
/// defined as `<target> <- function(<params>) {`, an instance method as
/// `<target> <- function(x, <params>) {` (just `x` without parameters of
/// its own), and a constant as `<target> <- function() {`.
pub proof fn lemma_r6_wrapper_defines_every_member(
    type_str: Seq<char>,
    trait_name: Seq<char>,
    ms: Seq<TraitWrapperMethod>,
    cs: Seq<TraitWrapperConst>,
)
    ensures
        forall|k: int|
            0 <= k < ms.len() && !(#[trigger] ms[k]).has_self ==> trait_r6_wrapper_lines(type_str, trait_name, ms, cs).contains(
                ms[k].namespace_target@ + " <- function("@ + ms[k].params@ + ") {"@,
            ),
        forall|k: int|
            0 <= k < ms.len() && (#[trigger] ms[k]).has_self ==> trait_r6_wrapper_lines(type_str, trait_name, ms, cs).contains(
                ms[k].namespace_target@ + " <- function("@ + (if ms[k].params@.len() == 0 {
                    "x"@
                } else {
                    "x, "@ + ms[k].params@
                }) + ") {"@,
            ),
        forall|k: int|
            0 <= k < cs.len() ==> trait_r6_wrapper_lines(type_str, trait_name, ms, cs).contains(
                (#[trigger] cs[k]).target@ + " <- function() {"@,
            ),
{
    let n = ms.len() as int;
    let head = seq![
        "# R6 trait methods for "@ + type_str + " implementing "@ + trait_name,
        "# Generated by #[miniextendr(r6)] impl "@ + trait_name + " for "@ + type_str,
        "# Note: R6 trait methods live in the Type$Trait$method namespace"@,
        Seq::empty(),
    ] + (if ms.len() > 0 || cs.len() > 0 {
        seq![type_str + "$"@ + trait_name + " <- new.env(parent = emptyenv())"@, Seq::empty()]
    } else {
        Seq::empty()
    });
    let a = head + r6_instance_blocks(ms, n);
    let b = a + s3_static_blocks(ms, trait_name, n);
    let c = s3_const_blocks(cs, type_str, cs.len() as int);
    assert(trait_r6_wrapper_lines(type_str, trait_name, ms, cs) == b + c);
    assert forall|k: int| 0 <= k < ms.len() && !(#[trigger] ms[k]).has_self implies (b + c).contains(
        ms[k].namespace_target@ + " <- function("@ + ms[k].params@ + ") {"@,
    ) by {
        let line = ms[k].namespace_target@ + " <- function("@ + ms[k].params@ + ") {"@;
        lemma_static_blocks_define(ms, trait_name, n, k);
        lemma_concat_contains(a, s3_static_blocks(ms, trait_name, n), line);
        lemma_concat_contains(b, c, line);
    }
    assert forall|k: int| 0 <= k < ms.len() && (#[trigger] ms[k]).has_self implies (b + c).contains(
        ms[k].namespace_target@ + " <- function("@ + x_formals(ms[k].params@) + ") {"@,
    ) by {
        let line = ms[k].namespace_target@ + " <- function("@ + x_formals(ms[k].params@) + ") {"@;
        lemma_r6_instance_blocks_define(ms, n, k);
        lemma_concat_contains(head, r6_instance_blocks(ms, n), line);
        lemma_concat_contains(a, s3_static_blocks(ms, trait_name, n), line);
        lemma_concat_contains(b, c, line);
    }
    assert forall|k: int| 0 <= k < cs.len() implies (b + c).contains((#[trigger] cs[k]).target@ + " <- function() {"@) by {
        lemma_s3_const_blocks_define(cs, type_str, cs.len() as int, k);
        lemma_concat_contains(b, c, cs[k].target@ + " <- function() {"@);
    }
}

/// In the S3 (and vctrs) wrappers of `impl Trait for Type` every method
/// without a receiver is defined in the `Type$Trait` namespace as
/// `<target> <- function(<params>) {`, and every constant as
/// `<target> <- function() {`; with either, the namespace is created.
pub proof fn lemma_s3_wrapper_defines_statics_and_consts(
    type_str: Seq<char>,
    trait_name: Seq<char>,
    ms: Seq<TraitWrapperMethod>,
    cs: Seq<TraitWrapperConst>,
)
    ensures
        forall|k: int|
            0 <= k < ms.len() && !(#[trigger] ms[k]).has_self ==> trait_s3_wrapper_lines(type_str, trait_name, ms, cs).contains(
                ms[k].namespace_target@ + " <- function("@ + ms[k].params@ + ") {"@,
            ),
        forall|k: int|
            0 <= k < cs.len() ==> trait_s3_wrapper_lines(type_str, trait_name, ms, cs).contains(
                (#[trigger] cs[k]).target@ + " <- function() {"@,
            ),
        (exists|k: int| 0 <= k < ms.len() && !(#[trigger] ms[k]).has_self) || cs.len() > 0
            ==> trait_s3_wrapper_lines(type_str, trait_name, ms, cs).contains(
            type_str + "$"@ + trait_name + " <- new.env(parent = emptyenv())"@,
        ),
{
    let n = ms.len() as int;
    let ns = (exists|k: int| 0 <= k < ms.len() && !(#[trigger] ms[k]).has_self) || cs.len() > 0;
    let h = seq![
        "# S3 trait methods for "@ + type_str + " implementing "@ + trait_name,
        "# Generated by #[miniextendr(s3)] impl "@ + trait_name + " for "@ + type_str,
        Seq::empty(),
    ] + s3_instance_blocks(ms, type_str, n);
    let env_line = type_str + "$"@ + trait_name + " <- new.env(parent = emptyenv())"@;
    let e = if ns {
        seq![env_line, Seq::empty()]
    } else {
        Seq::empty()
    };
    let a = h + e;
    let b = a + s3_static_blocks(ms, trait_name, n);
    let c = s3_const_blocks(cs, type_str, cs.len() as int);
    assert(trait_s3_wrapper_lines(type_str, trait_name, ms, cs) == b + c);
    assert forall|k: int| 0 <= k < ms.len() && !(#[trigger] ms[k]).has_self implies (b + c).contains(
        ms[k].namespace_target@ + " <- function("@ + ms[k].params@ + ") {"@,
    ) by {
        let line = ms[k].namespace_target@ + " <- function("@ + ms[k].params@ + ") {"@;
        lemma_static_blocks_define(ms, trait_name, n, k);
        lemma_concat_contains(a, s3_static_blocks(ms, trait_name, n), line);
        lemma_concat_contains(b, c, line);
    }
    assert forall|k: int| 0 <= k < cs.len() implies (b + c).contains((#[trigger] cs[k]).target@ + " <- function() {"@) by {
        lemma_s3_const_blocks_define(cs, type_str, cs.len() as int, k);
        lemma_concat_contains(b, c, cs[k].target@ + " <- function() {"@);
    }
    if ns {
        assert(e[0] == env_line);
        lemma_concat_contains(h, e, env_line);
        lemma_concat_contains(a, s3_static_blocks(ms, trait_name, n), env_line);
        lemma_concat_contains(b, c, env_line);
    }
}

/// In the S7 wrappers of `impl Trait for Type` every method without a
/// receiver is defined in the local trait env as `<target> <- function(<params>) {`,
/// and every constant as `<target> <- function() {`.
pub proof fn lemma_s7_wrapper_defines_statics_and_consts(
    type_str: Seq<char>,
    trait_name: Seq<char>,
    trait_env_var: Seq<char>,
    ms: Seq<TraitWrapperMethod>,
    cs: Seq<TraitWrapperConst>,
)
    ensures
        forall|k: int|
            0 <= k < ms.len() && !(#[trigger] ms[k]).has_self ==> trait_s7_wrapper_lines(
                type_str,
                trait_name,
                trait_env_var,
                ms,
                cs,
            ).contains(ms[k].namespace_target@ + " <- function("@ + ms[k].params@ + ") {"@),
        forall|k: int|
            0 <= k < cs.len() ==> trait_s7_wrapper_lines(type_str, trait_name, trait_env_var, ms, cs).contains(
                (#[trigger] cs[k]).target@ + " <- function() {"@,
            ),
{
    let n = ms.len() as int;
    let ns = (exists|k: int| 0 <= k < ms.len() && !(#[trigger] ms[k]).has_self) || cs.len() > 0;
    let a = seq![
        "# S7 trait methods for "@ + type_str + " implementing "@ + trait_name,
        "# Generated by #[miniextendr(s7)] impl "@ + trait_name + " for "@ + type_str,
        Seq::empty(),
        "#' @importFrom S7 new_generic method S7_dispatch"@,
        ".s7_class_"@ + type_str + " <- "@ + type_str,
        Seq::empty(),
    ] + s7_instance_blocks(ms, type_str, trait_name, n) + (if ns {
        seq![trait_env_var + " <- new.env(parent = emptyenv())"@, Seq::empty()]
    } else {
        Seq::empty()
    });
    let b = a + s3_static_blocks(ms, trait_name, n);
    let c = b + s7_const_blocks(cs, type_str, cs.len() as int);
    let d: Seq<Seq<char>> = if ns {
        seq!["attr("@ + type_str + ", \""@ + trait_name + "\") <- "@ + trait_env_var, Seq::empty()]
    } else {
        Seq::empty()
    };
    assert(trait_s7_wrapper_lines(type_str, trait_name, trait_env_var, ms, cs) == c + d);
    assert forall|k: int| 0 <= k < ms.len() && !(#[trigger] ms[k]).has_self implies (c + d).contains(
        ms[k].namespace_target@ + " <- function("@ + ms[k].params@ + ") {"@,
    ) by {
        let line = ms[k].namespace_target@ + " <- function("@ + ms[k].params@ + ") {"@;
        lemma_static_blocks_define(ms, trait_name, n, k);
        lemma_concat_contains(a, s3_static_blocks(ms, trait_name, n), line);
        lemma_concat_contains(b, s7_const_blocks(cs, type_str, cs.len() as int), line);
        lemma_concat_contains(c, d, line);
    }
    assert forall|k: int| 0 <= k < cs.len() implies (c + d).contains((#[trigger] cs[k]).target@ + " <- function() {"@) by {
        let line = cs[k].target@ + " <- function() {"@;
        lemma_s7_const_blocks_define(cs, type_str, cs.len() as int, k);
        lemma_concat_contains(b, s7_const_blocks(cs, type_str, cs.len() as int), line);
        lemma_concat_contains(c, d, line);
    }
}

/// In the S4 wrappers of `impl Trait for Type` every method without a
/// receiver is an exported standalone function `<target> <- function(<params>) {`,
/// and every constant one `<target> <- function() {`.
pub proof fn lemma_s4_wrapper_defines_statics_and_consts(
    type_str: Seq<char>,
    trait_name: Seq<char>,
    ms: Seq<TraitWrapperMethod>,
    cs: Seq<TraitWrapperConst>,
)
    ensures
        forall|k: int|
            0 <= k < ms.len() && !(#[trigger] ms[k]).has_self ==> trait_s4_wrapper_lines(type_str, trait_name, ms, cs).contains(
                ms[k].namespace_target@ + " <- function("@ + ms[k].params@ + ") {"@,
            ),
        forall|k: int|
            0 <= k < cs.len() ==> trait_s4_wrapper_lines(type_str, trait_name, ms, cs).contains(
                (#[trigger] cs[k]).target@ + " <- function() {"@,
            ),
{
    let n = ms.len() as int;
    let a = seq![
        "# S4 trait methods for "@ + type_str + " implementing "@ + trait_name,
        "# Generated by #[miniextendr(s4)] impl "@ + trait_name + " for "@ + type_str,
        Seq::empty(),
        "#' @importFrom methods setGeneric setMethod"@,
        Seq::empty(),
    ] + s4_blocks(ms, type_str, trait_name, false, n);
    let b = a + s4_blocks(ms, type_str, trait_name, true, n);
    let c = s4_const_blocks(cs, type_str, cs.len() as int);
    assert(trait_s4_wrapper_lines(type_str, trait_name, ms, cs) == b + c);
    assert forall|k: int| 0 <= k < ms.len() && !(#[trigger] ms[k]).has_self implies (b + c).contains(
        ms[k].namespace_target@ + " <- function("@ + ms[k].params@ + ") {"@,
    ) by {
        let line = ms[k].namespace_target@ + " <- function("@ + ms[k].params@ + ") {"@;
        lemma_s4_static_blocks_define(ms, type_str, trait_name, n, k);
        lemma_concat_contains(a, s4_blocks(ms, type_str, trait_name, true, n), line);
        lemma_concat_contains(b, c, line);
    }
    assert forall|k: int| 0 <= k < cs.len() implies (b + c).contains((#[trigger] cs[k]).target@ + " <- function() {"@) by {
        lemma_s4_const_blocks_define(cs, type_str, cs.len() as int, k);
        lemma_concat_contains(b, c, cs[k].target@ + " <- function() {"@);
    }
}

/// In the environment-class wrappers of `impl Trait for Type` every method
/// without a receiver is defined in the `Type$Trait` namespace as
/// `<target> <- function(<params>) {`, and every constant as
/// `<target> <- function() {`.
pub proof fn lemma_env_wrapper_defines_statics_and_consts(
    type_str: Seq<char>,
    trait_name: Seq<char>,
    ms: Seq<TraitWrapperMethod>,
    cs: Seq<TraitWrapperConst>,
)
    ensures
        forall|k: int|
            0 <= k < ms.len() && !(#[trigger] ms[k]).has_self ==> trait_env_wrapper_lines(type_str, trait_name, ms, cs).contains(
                ms[k].namespace_target@ + " <- function("@ + ms[k].params@ + ") {"@,
            ),
        forall|k: int|
            0 <= k < cs.len() ==> trait_env_wrapper_lines(type_str, trait_name, ms, cs).contains(
                (#[trigger] cs[k]).target@ + " <- function() {"@,
            ),
{
    let n = ms.len() as int;
    let a = seq![
        "# Trait methods and consts for "@ + type_str + " implementing "@ + trait_name,
        "# Generated by #[miniextendr] impl "@ + trait_name + " for "@ + type_str,
        Seq::empty(),
        type_str + "$"@ + trait_name + " <- new.env(parent = emptyenv())"@,
        Seq::empty(),
    ];
    let b = a + env_method_blocks(ms, n);
    let c = s3_const_blocks(cs, type_str, cs.len() as int);
    assert(trait_env_wrapper_lines(type_str, trait_name, ms, cs) == b + c);
    assert forall|k: int| 0 <= k < ms.len() && !(#[trigger] ms[k]).has_self implies (b + c).contains(
        ms[k].namespace_target@ + " <- function("@ + ms[k].params@ + ") {"@,
    ) by {
        let line = ms[k].namespace_target@ + " <- function("@ + ms[k].params@ + ") {"@;
        lemma_env_static_blocks_define(ms, n, k);
        lemma_concat_contains(a, env_method_blocks(ms, n), line);
        lemma_concat_contains(b, c, line);
    }
    assert forall|k: int| 0 <= k < cs.len() implies (b + c).contains((#[trigger] cs[k]).target@ + " <- function() {"@) by {
        lemma_s3_const_blocks_define(cs, type_str, cs.len() as int, k);
        lemma_concat_contains(b, c, cs[k].target@ + " <- function() {"@);
    }
}

/// Finishing a body leaves every line but its last one in place.
proof fn lemma_finished_keeps(ls: Seq<Seq<char>>, returns_unit: bool, invisible: bool, receiver: Seq<char>, i: int)
    requires
        0 <= i < ls.len() - 1,
    ensures
        i < finished(ls, returns_unit, invisible, receiver).len(),
        finished(ls, returns_unit, invisible, receiver)[i] == ls[i],
{
}

proof fn lemma_s3_instance_blocks_register(ms: Seq<TraitWrapperMethod>, type_str: Seq<char>, n: int, k: int)
    requires
        0 <= k < n <= ms.len(),
        ms[k].has_self,
    ensures
        s3_instance_blocks(ms, type_str, n).contains("#' @method "@ + ms[k].r_name@ + " "@ + type_str),
    decreases n,
{
    let m = ms[k];
    let line = "#' @method "@ + m.r_name@ + " "@ + type_str;
    let prev = s3_instance_blocks(ms, type_str, n - 1);
    let last = if ms[n - 1].has_self {
        s3_instance_block(ms[n - 1], type_str)
    } else {
        Seq::empty()
    };
    if k < n - 1 {
        lemma_s3_instance_blocks_register(ms, type_str, n - 1, k);
    } else {
        let head = s3_instance_head(m, type_str);
        let pre = s3_generic_doc(m, type_str) + seq![m.generic_guard@, Seq::empty()] + views(m.page_lines@);
        let i = pre.len() as int;
        assert(head[i] == line);
        lemma_finished_keeps(head, m.returns_unit, m.invisible, "x"@, i);
        assert(last[i] == line);
    }
    lemma_concat_contains(prev, last, line);
}

proof fn lemma_s7_instance_blocks_define(ms: Seq<TraitWrapperMethod>, type_str: Seq<char>, trait_name: Seq<char>, n: int, k: int)
    requires
        0 <= k < n <= ms.len(),
        ms[k].has_self,
    ensures
        s7_instance_blocks(ms, type_str, trait_name, n).contains(
            "S7::method("@ + s7_generic_name(trait_name, ms[k]) + ", .s7_class_"@ + type_str + ") <- function("@
                + s3_formals(ms[k].params@) + ") {"@,
        ),
    decreases n,
{
    let m = ms[k];
    let line = "S7::method("@ + s7_generic_name(trait_name, m) + ", .s7_class_"@ + type_str + ") <- function("@ + s3_formals(
        m.params@,
    ) + ") {"@;
    let prev = s7_instance_blocks(ms, type_str, trait_name, n - 1);
    let last = if ms[n - 1].has_self {
        s7_instance_block(ms[n - 1], type_str, trait_name)
    } else {
        Seq::empty()
    };
    if k < n - 1 {
        lemma_s7_instance_blocks_define(ms, type_str, trait_name, n - 1, k);
    } else {
        let head = seq![line, "  .ptr <- x@.ptr"@] + views(m.prelude@) + views(m.ptr_body@);
        lemma_finished_keeps_head(head, m.returns_unit, m.invisible, "x"@);
        assert(s7_method_part(m, type_str, trait_name)[0] == line);
        assert(last[8] == line);
    }
    lemma_concat_contains(prev, last, line);
}

proof fn lemma_s4_instance_blocks_define(ms: Seq<TraitWrapperMethod>, type_str: Seq<char>, trait_name: Seq<char>, n: int, k: int)
    requires
        0 <= k < n <= ms.len(),
        ms[k].has_self,
    ensures
        s4_blocks(ms, type_str, trait_name, false, n).contains(
            "methods::setMethod(\""@ + ("s4_trait_"@ + trait_name + "_"@ + ms[k].r_name@) + "\", \""@ + type_str
                + "\", function("@ + s3_formals(ms[k].params@) + ") {"@,
        ),
    decreases n,
{
    let m = ms[k];
    let g = "s4_trait_"@ + trait_name + "_"@ + m.r_name@;
    let line = "methods::setMethod(\""@ + g + "\", \""@ + type_str + "\", function("@ + s3_formals(m.params@) + ") {"@;
    let prev = s4_blocks(ms, type_str, trait_name, false, n - 1);
    let last = if ms[n - 1].has_self == false {
        Seq::empty()
    } else {
        s4_instance_block(ms[n - 1], type_str, trait_name)
    };
    if k < n - 1 {
        lemma_s4_instance_blocks_define(ms, type_str, trait_name, n - 1, k);
    } else {
        let head = seq![line, "  .ptr <- x@ptr"@] + views(m.prelude@) + views(m.ptr_body@);
        let f = finished(head, m.returns_unit, m.invisible, "x"@);
        lemma_finished_keeps_head(head, m.returns_unit, m.invisible, "x"@);
        let pre = seq![
            "#' @description S4 generic for trait method `"@ + trait_name + "::"@ + m.rust_name@ + "`"@,
            "#' @name "@ + g,
            "#' @rdname "@ + type_str,
            "#' @param x A `"@ + type_str + "` object"@,
            "#' @param ... Additional arguments passed to methods"@,
        ] + tag_lines(m.param_tags@) + seq![
            "#' @export"@,
            "if (!exists(\""@ + g + "\", where = topenv(environment()), inherits = FALSE)) methods::setGeneric(\""@ + g
                + "\", function(x, ...) standardGeneric(\""@ + g + "\"))"@,
            Seq::empty(),
        ] + views(m.page_lines@) + comment_lines(views(m.param_tags@)) + seq!["#' @exportMethod "@ + g];
        let tail = seq!["})"@, Seq::empty()];
        assert(last == pre + f + tail);
        assert(f[0] == line);
        lemma_concat_contains(pre, f, line);
        lemma_concat_contains(pre + f, tail, line);
    }
    lemma_concat_contains(prev, last, line);
}

/// Every instance method of an S3 (or vctrs) trait impl is registered as
/// the S3 method `@method <name> <Type>`.
pub proof fn lemma_s3_wrapper_registers_instance_methods(
    type_str: Seq<char>,
    trait_name: Seq<char>,
    ms: Seq<TraitWrapperMethod>,
    cs: Seq<TraitWrapperConst>,
)
    ensures
        forall|k: int|
            0 <= k < ms.len() && (#[trigger] ms[k]).has_self ==> trait_s3_wrapper_lines(type_str, trait_name, ms, cs).contains(
                "#' @method "@ + ms[k].r_name@ + " "@ + type_str,
            ),
{
    let n = ms.len() as int;
    let h = seq![
        "# S3 trait methods for "@ + type_str + " implementing "@ + trait_name,
        "# Generated by #[miniextendr(s3)] impl "@ + trait_name + " for "@ + type_str,
        Seq::empty(),
    ];
    let a = h + s3_instance_blocks(ms, type_str, n);
    assert forall|k: int| 0 <= k < ms.len() && (#[trigger] ms[k]).has_self implies trait_s3_wrapper_lines(
        type_str,
        trait_name,
        ms,
        cs,
    ).contains("#' @method "@ + ms[k].r_name@ + " "@ + type_str) by {
        let line = "#' @method "@ + ms[k].r_name@ + " "@ + type_str;
        lemma_s3_instance_blocks_register(ms, type_str, n, k);
        lemma_concat_contains(h, s3_instance_blocks(ms, type_str, n), line);
        let i = choose|i: int| 0 <= i < a.len() && a[i] == line;
        assert(trait_s3_wrapper_lines(type_str, trait_name, ms, cs)[i] == line);
    }
}

/// Every instance method of an S7 trait impl gets an S7 method on the class
/// object: `S7::method(s7_trait_<Trait>_<name>, .s7_class_<Type>) <- function(x, ...)`.
pub proof fn lemma_s7_wrapper_defines_instance_methods(
    type_str: Seq<char>,
    trait_name: Seq<char>,
    trait_env_var: Seq<char>,
    ms: Seq<TraitWrapperMethod>,
    cs: Seq<TraitWrapperConst>,
)
    ensures
        forall|k: int|
            0 <= k < ms.len() && (#[trigger] ms[k]).has_self ==> trait_s7_wrapper_lines(
                type_str,
                trait_name,
                trait_env_var,
                ms,
                cs,
            ).contains(
                "S7::method("@ + ("s7_trait_"@ + trait_name + "_"@ + ms[k].r_name@) + ", .s7_class_"@ + type_str
                    + ") <- function("@ + s3_formals(ms[k].params@) + ") {"@,
            ),
{
    let n = ms.len() as int;
    let h = seq![
        "# S7 trait methods for "@ + type_str + " implementing "@ + trait_name,
        "# Generated by #[miniextendr(s7)] impl "@ + trait_name + " for "@ + type_str,
        Seq::empty(),
        "#' @importFrom S7 new_generic method S7_dispatch"@,
        ".s7_class_"@ + type_str + " <- "@ + type_str,
        Seq::empty(),
    ];
    let a = h + s7_instance_blocks(ms, type_str, trait_name, n);
    let all = trait_s7_wrapper_lines(type_str, trait_name, trait_env_var, ms, cs);
    assert forall|k: int| 0 <= k < ms.len() && (#[trigger] ms[k]).has_self implies all.contains(
        "S7::method("@ + ("s7_trait_"@ + trait_name + "_"@ + ms[k].r_name@) + ", .s7_class_"@ + type_str
            + ") <- function("@ + s3_formals(ms[k].params@) + ") {"@,
    ) by {
        let line = "S7::method("@ + s7_generic_name(trait_name, ms[k]) + ", .s7_class_"@ + type_str + ") <- function("@
            + s3_formals(ms[k].params@) + ") {"@;
        lemma_s7_instance_blocks_define(ms, type_str, trait_name, n, k);
        lemma_concat_contains(h, s7_instance_blocks(ms, type_str, trait_name, n), line);
        let i = choose|i: int| 0 <= i < a.len() && a[i] == line;
        assert(all[i] == line);
    }
}

/// Every instance method of an S4 trait impl gets a `setMethod` for the
/// class on the generic `s4_trait_<Trait>_<name>`.
pub proof fn lemma_s4_wrapper_defines_instance_methods(
    type_str: Seq<char>,
    trait_name: Seq<char>,
    ms: Seq<TraitWrapperMethod>,
    cs: Seq<TraitWrapperConst>,
)
    ensures
        forall|k: int|
            0 <= k < ms.len() && (#[trigger] ms[k]).has_self ==> trait_s4_wrapper_lines(type_str, trait_name, ms, cs).contains(
                "methods::setMethod(\""@ + ("s4_trait_"@ + trait_name + "_"@ + ms[k].r_name@) + "\", \""@ + type_str
                    + "\", function("@ + s3_formals(ms[k].params@) + ") {"@,
            ),
{
    let n = ms.len() as int;
    let h = seq![
        "# S4 trait methods for "@ + type_str + " implementing "@ + trait_name,
        "# Generated by #[miniextendr(s4)] impl "@ + trait_name + " for "@ + type_str,
        Seq::empty(),
        "#' @importFrom methods setGeneric setMethod"@,
        Seq::empty(),
    ];
    let a = h + s4_blocks(ms, type_str, trait_name, false, n);
    let all = trait_s4_wrapper_lines(type_str, trait_name, ms, cs);
    assert forall|k: int| 0 <= k < ms.len() && (#[trigger] ms[k]).has_self implies all.contains(
        "methods::setMethod(\""@ + ("s4_trait_"@ + trait_name + "_"@ + ms[k].r_name@) + "\", \""@ + type_str
            + "\", function("@ + s3_formals(ms[k].params@) + ") {"@,
    ) by {
        let line = "methods::setMethod(\""@ + ("s4_trait_"@ + trait_name + "_"@ + ms[k].r_name@) + "\", \""@ + type_str
            + "\", function("@ + s3_formals(ms[k].params@) + ") {"@;
        lemma_s4_instance_blocks_define(ms, type_str, trait_name, n, k);
        lemma_concat_contains(h, s4_blocks(ms, type_str, trait_name, false, n), line);
        let i = choose|i: int| 0 <= i < a.len() && a[i] == line;
        assert(all[i] == line);
    }
}

proof fn lemma_env_instance_blocks_stamp(ms: Seq<TraitWrapperMethod>, n: int, k: int)
    requires
        0 <= k < n <= ms.len(),
        ms[k].has_self,
    ensures
        env_method_blocks(ms, n).contains("attr("@ + ms[k].namespace_target@ + ", \".__mx_instance__\") <- TRUE"@),
    decreases n,
{
    let m = ms[k];
    let line = "attr("@ + m.namespace_target@ + ", \".__mx_instance__\") <- TRUE"@;
    let prev = env_method_blocks(ms, n - 1);
    let last = env_method_block(ms[n - 1]);
    if k < n - 1 {
        lemma_env_instance_blocks_stamp(ms, n - 1, k);
    } else {
        let head = seq![m.namespace_target@ + " <- function("@ + x_formals(m.params@) + ") {"@] + views(m.prelude@) + views(
            m.body@,
        );
        let pre = views(m.page_lines@) + finished(head, m.returns_unit, m.invisible, "x"@) + seq!["}"@];
        assert(last == pre + seq![line] + seq![Seq::<char>::empty()]);
        assert(last[pre.len() as int] == line);
    }
    lemma_concat_contains(prev, last, line);
}

/// Every instance method of an environment-class trait impl is stamped for
/// `$` dispatch: `attr(<target>, ".__mx_instance__") <- TRUE`.
pub proof fn lemma_env_wrapper_stamps_instance_methods(
    type_str: Seq<char>,
    trait_name: Seq<char>,
    ms: Seq<TraitWrapperMethod>,
    cs: Seq<TraitWrapperConst>,
)
    ensures
        forall|k: int|
            0 <= k < ms.len() && (#[trigger] ms[k]).has_self ==> trait_env_wrapper_lines(type_str, trait_name, ms, cs).contains(
                "attr("@ + ms[k].namespace_target@ + ", \".__mx_instance__\") <- TRUE"@,
            ),
{
    let n = ms.len() as int;
    let a = seq![
        "# Trait methods and consts for "@ + type_str + " implementing "@ + trait_name,
        "# Generated by #[miniextendr] impl "@ + trait_name + " for "@ + type_str,
        Seq::empty(),
        type_str + "$"@ + trait_name + " <- new.env(parent = emptyenv())"@,
        Seq::empty(),
    ];
    let b = a + env_method_blocks(ms, n);
    let c = s3_const_blocks(cs, type_str, cs.len() as int);
    assert(trait_env_wrapper_lines(type_str, trait_name, ms, cs) == b + c);
    assert forall|k: int| 0 <= k < ms.len() && (#[trigger] ms[k]).has_self implies (b + c).contains(
        "attr("@ + ms[k].namespace_target@ + ", \".__mx_instance__\") <- TRUE"@,
    ) by {
        let line = "attr("@ + ms[k].namespace_target@ + ", \".__mx_instance__\") <- TRUE"@;
        lemma_env_instance_blocks_stamp(ms, n, k);
        lemma_concat_contains(a, env_method_blocks(ms, n), line);
        lemma_concat_contains(b, c, line);
    }
}

} // verus!
