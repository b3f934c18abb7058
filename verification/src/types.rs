//! A plain model of the Rust syntax the generators inspect: types, function
//! parameters and the doc text of attributes.
//!
//! The parsing front end fills these in from the token trees of the user's
//! item; every decision of the generators is taken on them.
use vstd::prelude::*;
use crate::text::str_eq;

verus! {

/// One generic argument of a path segment (`<T, 'a, N>`).
pub enum GenericArg {
    /// A type argument.
    Type(TypeModel),
    /// A lifetime, const or binding argument.
    Other,
}

/// The arguments of a path segment.
pub enum SegmentArgs {
    /// No arguments (`Foo`).
    Bare,
    /// Angle-bracketed arguments (`Foo<A, B>`), in order.
    Angle(Vec<GenericArg>),
    /// Parenthesized arguments (`Fn(A) -> B`).
    Paren,
}

/// One segment of a type path (`std::vec::Vec<T>` has three).
pub struct Segment {
    /// The identifier of the segment.
    pub ident: String,
    /// Its generic arguments.
    pub args: SegmentArgs,
}

/// A Rust type, as far as the generators look into it.
pub enum TypeModel {
    /// A path type such as `i32`, `Vec<T>` or `miniextendr_api::AsNumeric`.
    Path(Vec<Segment>),
    /// A reference `&T` or `&mut T` (`true` for `&mut T`).
    Reference(bool, Box<TypeModel>),
    /// A slice `[T]`.
    Slice(Box<TypeModel>),
    /// An array `[T; N]`, with `N` when it is an integer literal.
    Array(Box<TypeModel>, Option<usize>),
    /// A parenthesized type `(T)`.
    Paren(Box<TypeModel>),
    /// An invisible group around a type.
    Group(Box<TypeModel>),
    /// A tuple type; `()` is the unit type.
    Tuple(Vec<TypeModel>),
    /// Any other type (trait objects, function pointers, ...).
    Other,
}

/// One parameter of a function signature.
pub enum Param {
    /// A `self` receiver (`self`, `&self`, `&mut self`).
    Receiver,
    /// A typed parameter `pat: ty`.
    Typed {
        /// The identifier when the pattern is a plain identifier, else `None`.
        name: Option<String>,
        /// The declared type.
        ty: TypeModel,
    },
}

// ---------------------------------------------------------------------------
// Specifications
// ---------------------------------------------------------------------------

/// The position of the first type argument in `args` at or after `from`.
pub open spec fn type_arg_index_from(args: Seq<GenericArg>, from: int) -> Option<int>
    decreases args.len() - from,
{
    if from < 0 || from >= args.len() {
        None
    } else if args[from] is Type {
        Some(from)
    } else {
        type_arg_index_from(args, from + 1)
    }
}

/// The position of the `n`-th type argument (lifetimes and consts skipped).
pub open spec fn nth_type_arg_index(args: Seq<GenericArg>, n: nat) -> Option<int>
    decreases n,
{
    if n == 0 {
        type_arg_index_from(args, 0)
    } else {
        match nth_type_arg_index(args, (n - 1) as nat) {
            Some(k) => type_arg_index_from(args, k + 1),
            None => None,
        }
    }
}

/// The last segment of a path type.
pub open spec fn last_segment(ty: TypeModel) -> Option<Segment> {
    match ty {
        TypeModel::Path(segs) => if segs@.len() > 0 {
            Some(segs@.last())
        } else {
            None
        },
        _ => None,
    }
}

/// The identifier of the last segment of a path type.
pub open spec fn last_ident(ty: TypeModel) -> Option<Seq<char>> {
    match last_segment(ty) {
        Some(seg) => Some(seg.ident@),
        None => None,
    }
}

/// The `n`-th type argument of a segment.
pub open spec fn nth_type_arg(seg: Segment, n: nat) -> Option<TypeModel> {
    match seg.args {
        SegmentArgs::Angle(args) => match nth_type_arg_index(args@, n) {
            Some(k) => match args@[k] {
                GenericArg::Type(t) => Some(t),
                GenericArg::Other => None,
            },
            None => None,
        },
        _ => None,
    }
}

/// The first type argument of a segment.
pub open spec fn first_type_arg(seg: Segment) -> Option<TypeModel> {
    nth_type_arg(seg, 0)
}

/// The first generic argument of a segment, when it is a type.
pub open spec fn leading_type_arg(seg: Segment) -> Option<TypeModel> {
    match seg.args {
        SegmentArgs::Angle(args) => if args@.len() > 0 {
            match args@[0] {
                GenericArg::Type(t) => Some(t),
                GenericArg::Other => None,
            }
        } else {
            None
        },
        _ => None,
    }
}

/// `T` when `ty` is a path whose last segment is `name<T, ..>` (first type
/// argument).
pub open spec fn wrapper_inner(ty: TypeModel, name: Seq<char>) -> Option<TypeModel> {
    match last_segment(ty) {
        Some(seg) => if seg.ident@ == name {
            first_type_arg(seg)
        } else {
            None
        },
        None => None,
    }
}

/// `T` for `Option<T>`.
pub open spec fn option_inner(ty: TypeModel) -> Option<TypeModel> {
    wrapper_inner(ty, "Option"@)
}

/// `T` for `Missing<T>`.
pub open spec fn missing_inner(ty: TypeModel) -> Option<TypeModel> {
    wrapper_inner(ty, "Missing"@)
}

/// Whether `ty` is a `Missing<..>` path (by its last segment).
pub open spec fn is_missing(ty: TypeModel) -> bool {
    last_ident(ty) == Some("Missing"@)
}

/// Whether `ty` is the unit type `()`.
pub open spec fn is_unit(ty: TypeModel) -> bool {
    match ty {
        TypeModel::Tuple(elems) => elems@.len() == 0,
        _ => false,
    }
}

/// Whether `ty` is `&Dots` (by the last segment of the referenced path).
pub open spec fn is_dots_ref(ty: TypeModel) -> bool {
    match ty {
        TypeModel::Reference(_, inner) => last_ident(*inner) == Some("Dots"@),
        _ => false,
    }
}

// ---------------------------------------------------------------------------
// Executable queries
// ---------------------------------------------------------------------------

/// The position of the first type argument at or after `from`.
pub fn type_arg_index_from_exec(args: &Vec<GenericArg>, from: usize) -> (r: Option<usize>)
    ensures
        match r {
            Some(k) => type_arg_index_from(args@, from as int) == Some(k as int),
            None => type_arg_index_from(args@, from as int) is None,
        },
    decreases args.len() - from,
{
    if from >= args.len() {
        None
    } else {
        match &args[from] {
            GenericArg::Type(_) => Some(from),
            GenericArg::Other => type_arg_index_from_exec(args, from + 1),
        }
    }
}

/// The `n`-th type argument of a segment.
pub fn nth_type_argument(seg: &Segment, n: usize) -> (r: Option<&TypeModel>)
    ensures
        match r {
            Some(t) => nth_type_arg(*seg, n as nat) == Some(*t),
            None => nth_type_arg(*seg, n as nat) is None,
        },
{
    match &seg.args {
        SegmentArgs::Angle(args) => {
            let mut k = type_arg_index_from_exec(args, 0);
            let mut i: usize = 0;
            while i < n
                invariant
                    i <= n,
                    match k {
                        Some(j) => nth_type_arg_index(args@, i as nat) == Some(j as int),
                        None => nth_type_arg_index(args@, i as nat) is None,
                    },
                decreases n - i,
            {
                match k {
                    Some(j) => {
                        if j >= args.len() || j + 1 >= args.len() {
                            k = None;
                        } else {
                            k = type_arg_index_from_exec(args, j + 1);
                        }
                    },
                    None => {},
                }
                i = i + 1;
            }
            match k {
                Some(j) => {
                    assert(j < args@.len()) by {
                        lemma_type_arg_index_bound(args@, n as nat);
                    }
                    match &args[j] {
                        GenericArg::Type(t) => Some(t),
                        GenericArg::Other => None,
                    }
                },
                None => None,
            }
        },
        _ => None,
    }
}

/// A found type-argument position lies inside the list.
pub proof fn lemma_type_arg_index_from_bound(args: Seq<GenericArg>, from: int)
    ensures
        type_arg_index_from(args, from) matches Some(k) ==> from <= k < args.len() && args[k] is Type,
    decreases args.len() - from,
{
    if from >= 0 && from < args.len() && !(args[from] is Type) {
        lemma_type_arg_index_from_bound(args, from + 1);
    }
}

/// A found `n`-th type-argument position lies inside the list.
pub proof fn lemma_type_arg_index_bound(args: Seq<GenericArg>, n: nat)
    ensures
        nth_type_arg_index(args, n) matches Some(k) ==> 0 <= k < args.len() && args[k] is Type,
    decreases n,
{
    if n == 0 {
        lemma_type_arg_index_from_bound(args, 0);
    } else {
        lemma_type_arg_index_bound(args, (n - 1) as nat);
        if let Some(k) = nth_type_arg_index(args, (n - 1) as nat) {
            lemma_type_arg_index_from_bound(args, k + 1);
        }
    }
}

/// The first type argument of a segment.
pub fn first_type_argument(seg: &Segment) -> (r: Option<&TypeModel>)
    ensures
        match r {
            Some(t) => first_type_arg(*seg) == Some(*t),
            None => first_type_arg(*seg) is None,
        },
{
    nth_type_argument(seg, 0)
}

/// The first generic argument of a segment, when it is a type.
pub fn leading_type_argument(seg: &Segment) -> (r: Option<&TypeModel>)
    ensures
        match r {
            Some(t) => leading_type_arg(*seg) == Some(*t),
            None => leading_type_arg(*seg) is None,
        },
{
    match &seg.args {
        SegmentArgs::Angle(args) => {
            if args.len() > 0 {
                match &args[0] {
                    GenericArg::Type(t) => Some(t),
                    GenericArg::Other => None,
                }
            } else {
                None
            }
        },
        _ => None,
    }
}

/// The last segment of a path type.
pub fn last_segment_of(ty: &TypeModel) -> (r: Option<&Segment>)
    ensures
        match r {
            Some(s) => last_segment(*ty) == Some(*s),
            None => last_segment(*ty) is None,
        },
{
    match ty {
        TypeModel::Path(segs) => {
            if segs.len() > 0 {
                Some(&segs[segs.len() - 1])
            } else {
                None
            }
        },
        _ => None,
    }
}

/// Whether the last segment of the path type `ty` is `name`.
pub fn last_ident_is(ty: &TypeModel, name: &str) -> (r: bool)
    ensures
        r == (last_ident(*ty) == Some(name@)),
{
    match last_segment_of(ty) {
        Some(seg) => str_eq(seg.ident.as_str(), name),
        None => false,
    }
}

/// `T` when `ty` is `name<T, ..>` by its last segment.
pub fn wrapper_inner_type<'a>(ty: &'a TypeModel, name: &str) -> (r: Option<&'a TypeModel>)
    ensures
        match r {
            Some(t) => wrapper_inner(*ty, name@) == Some(*t),
            None => wrapper_inner(*ty, name@) is None,
        },
{
    match last_segment_of(ty) {
        Some(seg) => {
            if str_eq(seg.ident.as_str(), name) {
                first_type_argument(seg)
            } else {
                None
            }
        },
        None => None,
    }
}

/// `T` for an `Option<T>` type.
pub fn option_inner_type(ty: &TypeModel) -> (r: Option<&TypeModel>)
    ensures
        match r {
            Some(t) => option_inner(*ty) == Some(*t),
            None => option_inner(*ty) is None,
        },
{
    wrapper_inner_type(ty, "Option")
}

/// `T` for a `Missing<T>` type.
pub fn missing_inner_type(ty: &TypeModel) -> (r: Option<&TypeModel>)
    ensures
        match r {
            Some(t) => missing_inner(*ty) == Some(*t),
            None => missing_inner(*ty) is None,
        },
{
    wrapper_inner_type(ty, "Missing")
}

/// Whether `ty` is an `Option<T>` type.
pub fn is_option_type(ty: &TypeModel) -> (r: bool)
    ensures
        r == (option_inner(*ty) is Some),
{
    option_inner_type(ty).is_some()
}

/// Whether `ty` is a `Missing<..>` type.
pub fn is_missing_type(ty: &TypeModel) -> (r: bool)
    ensures
        r == is_missing(*ty),
{
    last_ident_is(ty, "Missing")
}

/// Whether `ty` is the unit type.
pub fn is_unit_type(ty: &TypeModel) -> (r: bool)
    ensures
        r == is_unit(*ty),
{
    match ty {
        TypeModel::Tuple(elems) => elems.len() == 0,
        _ => false,
    }
}

/// Whether `ty` is `&Dots`.
pub fn is_dots_ref_type(ty: &TypeModel) -> (r: bool)
    ensures
        r == is_dots_ref(*ty),
{
    match ty {
        TypeModel::Reference(_, inner) => last_ident_is(inner, "Dots"),
        _ => false,
    }
}

} // verus!
