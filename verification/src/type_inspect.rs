//! Questions the generators ask of parameter and return types: visibility
//! markers, main-thread-bound types, condition-call markers, the layers of a
//! choice parameter and how R names a value.
use vstd::prelude::*;
use crate::r_wrapper_builder::CallAttribution;
use crate::text::{concat3, owned, push_char, str_eq};
use crate::tokens::{Delimiter, Spacing, TokenTree};
use crate::types::{
    first_type_arg, first_type_argument, is_missing, last_ident, last_segment, last_segment_of,
    missing_inner, missing_inner_type, nth_type_arg, nth_type_argument, option_inner, option_inner_type,
    GenericArg, Segment, SegmentArgs, TypeModel,
};

verus! {

// ---------------------------------------------------------------------------
// Type arguments
// ---------------------------------------------------------------------------

/// The second type argument of a segment.
pub fn second_type_argument(seg: &Segment) -> (r: Option<&TypeModel>)
    ensures
        match r {
            Some(t) => nth_type_arg(*seg, 1) == Some(*t),
            None => nth_type_arg(*seg, 1) is None,
        },
{
    nth_type_argument(seg, 1)
}

// ---------------------------------------------------------------------------
// Visibility markers
// ---------------------------------------------------------------------------

/// The decision of a visibility marker (`Invisible<T>` is `true`,
/// `Visible<T>` is `false`) and the type under it; `None` and the type
/// itself for anything else, a bare `Invisible` included.
pub open spec fn visibility_of(ty: TypeModel) -> (Option<bool>, TypeModel) {
    match last_segment(ty) {
        Some(seg) => if seg.ident@ == "Invisible"@ || seg.ident@ == "Visible"@ {
            match first_type_arg(seg) {
                Some(inner) => (Some(seg.ident@ == "Invisible"@), inner),
                None => (None, ty),
            }
        } else {
            (None, ty)
        },
        None => (None, ty),
    }
}

/// Peel a return-visibility marker (`Invisible<T>` / `Visible<T>`, by the
/// last path segment).
pub fn peel_visibility_marker(ty: &TypeModel) -> (r: (Option<bool>, &TypeModel))
    ensures
        r.0 == visibility_of(*ty).0,
        *r.1 == visibility_of(*ty).1,
{
    match last_segment_of(ty) {
        Some(seg) => {
            let invisible = str_eq(seg.ident.as_str(), "Invisible");
            if invisible || str_eq(seg.ident.as_str(), "Visible") {
                match first_type_argument(seg) {
                    Some(inner) => (Some(invisible), inner),
                    None => (None, ty),
                }
            } else {
                (None, ty)
            }
        },
        None => (None, ty),
    }
}

/// The wrapper's visibility from its three sources, most explicit first: a
/// return-type marker, the `invisible` / `visible` attribute, the shape's
/// default. A marker and an attribute that disagree are refused.
pub fn resolve_visibility(marker: Option<bool>, attr: Option<bool>, shape_default: bool) -> (r: Result<bool, String>)
    ensures
        match (marker, attr) {
            (Some(m), Some(a)) => if m != a {
                r matches Err(e) && e@
                    == "the return type's visibility marker and the `invisible` / `visible` attribute disagree; keep one of them (or make them agree)"@
            } else {
                r == Ok::<bool, String>(m)
            },
            (Some(m), None) => r == Ok::<bool, String>(m),
            (None, Some(a)) => r == Ok::<bool, String>(a),
            (None, None) => r == Ok::<bool, String>(shape_default),
        },
{
    match (marker, attr) {
        (Some(m), Some(a)) => {
            if m != a {
                Err(
                    owned(
                        "the return type's visibility marker and the `invisible` / `visible` attribute disagree; keep one of them (or make them agree)",
                    ),
                )
            } else {
                Ok(m)
            }
        },
        (Some(m), None) => Ok(m),
        (None, Some(a)) => Ok(a),
        (None, None) => Ok(shape_default),
    }
}

/// Why a visibility marker cannot be honoured where it stands: in an
/// argument, or nested in another marker.
pub open spec fn visibility_error(ty: TypeModel, what: Seq<char>) -> Option<Seq<char>> {
    let (marker, inner) = visibility_of(ty);
    if marker is None {
        None
    } else if what == "argument"@ {
        Some(
            "`Invisible<T>` / `Visible<T>` mark the return type only; they cannot be used as a parameter type"@,
        )
    } else if visibility_of(inner).0 is Some {
        Some(
            "visibility markers cannot be nested; use a single `Invisible<T>` or `Visible<T>` around the return type"@,
        )
    } else {
        None
    }
}

/// Why a visibility marker cannot be honoured in `ty` (`what` says where
/// the type stands: `"argument"` or the return).
pub fn visibility_marker_error(ty: &TypeModel, what: &str) -> (r: Option<String>)
    ensures
        match r {
            Some(e) => visibility_error(*ty, what@) == Some(e@),
            None => visibility_error(*ty, what@) is None,
        },
{
    let (marker, inner) = peel_visibility_marker(ty);
    if marker.is_none() {
        return None;
    }
    if str_eq(what, "argument") {
        return Some(
            owned(
                "`Invisible<T>` / `Visible<T>` mark the return type only; they cannot be used as a parameter type",
            ),
        );
    }
    if peel_visibility_marker(inner).0.is_some() {
        return Some(
            owned(
                "visibility markers cannot be nested; use a single `Invisible<T>` or `Visible<T>` around the return type",
            ),
        );
    }
    None
}

// ---------------------------------------------------------------------------
// Main-thread-bound types
// ---------------------------------------------------------------------------

/// Whether `ty` is `SEXP` (by its last path segment).
pub fn is_sexp_type(ty: &TypeModel) -> (r: bool)
    ensures
        r == (last_ident(*ty) == Some("SEXP"@)),
{
    match last_segment_of(ty) {
        Some(seg) => str_eq(seg.ident.as_str(), "SEXP"),
        None => false,
    }
}

/// The framework types that hold R memory and cannot leave the R main
/// thread: `SEXP`, the condition-call markers, `AltrepSexp`, the R-backed
/// views and the GC-rooted data frame handles.
pub open spec fn main_thread_name(id: Seq<char>) -> bool {
    ||| id == "SEXP"@
    ||| id == "Call"@
    ||| id == "CallerCall"@
    ||| id == "AltrepSexp"@
    ||| id == "RDVector"@
    ||| id == "RDMatrix"@
    ||| id == "RndVec"@
    ||| id == "RndMat"@
    ||| id == "ProtectedStrVec"@
    ||| id == "BuiltDataFrame"@
    ||| id == "DataFrameShape"@
}

/// Whether `id` names a main-thread-bound type.
pub fn is_main_thread_name(id: &str) -> (r: bool)
    ensures
        r == main_thread_name(id@),
{
    str_eq(id, "SEXP") || str_eq(id, "Call") || str_eq(id, "CallerCall") || str_eq(id, "AltrepSexp") || str_eq(
        id,
        "RDVector",
    ) || str_eq(id, "RDMatrix") || str_eq(id, "RndVec") || str_eq(id, "RndMat") || str_eq(id, "ProtectedStrVec")
        || str_eq(id, "BuiltDataFrame") || str_eq(id, "DataFrameShape")
}

/// Whether an input type is bound to the R main thread: its outermost path
/// names one of the bound types (such inputs never come nested).
pub fn is_main_thread_bound_input(ty: &TypeModel) -> (r: bool)
    ensures
        r == (match last_ident(*ty) {
            Some(id) => main_thread_name(id),
            None => false,
        }),
{
    match last_segment_of(ty) {
        Some(seg) => is_main_thread_name(seg.ident.as_str()),
        None => false,
    }
}

/// Whether a return type is, or holds anywhere, a main-thread-bound type.
pub open spec fn bound_return(ty: TypeModel) -> bool
    decreases ty, 0int,
{
    match ty {
        TypeModel::Path(segs) => if segs@.len() == 0 {
            false
        } else {
            let seg = segs@[segs@.len() - 1];
            main_thread_name(seg.ident@) || match seg.args {
                SegmentArgs::Angle(args) => args_bound(args@, args@.len() as int),
                _ => false,
            }
        },
        TypeModel::Reference(_, inner) => bound_return(*inner),
        TypeModel::Paren(inner) => bound_return(*inner),
        TypeModel::Group(inner) => bound_return(*inner),
        TypeModel::Slice(inner) => bound_return(*inner),
        TypeModel::Array(inner, _) => bound_return(*inner),
        TypeModel::Tuple(elems) => elems_bound(elems@, elems@.len() as int),
        TypeModel::Other => false,
    }
}

/// Whether one of the first `n` generic arguments is a bound type.
pub open spec fn args_bound(args: Seq<GenericArg>, n: int) -> bool
    decreases args, n,
{
    if n <= 0 || n > args.len() {
        false
    } else {
        args_bound(args, n - 1) || match args[n - 1] {
            GenericArg::Type(t) => bound_return(t),
            GenericArg::Other => false,
        }
    }
}

/// Whether one of the first `n` tuple elements is a bound type.
pub open spec fn elems_bound(elems: Seq<TypeModel>, n: int) -> bool
    decreases elems, n,
{
    if n <= 0 || n > elems.len() {
        false
    } else {
        elems_bound(elems, n - 1) || bound_return(elems[n - 1])
    }
}

/// Whether a return type is, or holds anywhere, a main-thread-bound type
/// (`Result<BuiltDataFrame, String>`, `Vec<DataFrameShape>`, ...).
pub fn is_main_thread_bound_return(ty: &TypeModel) -> (r: bool)
    ensures
        r == bound_return(*ty),
    decreases ty,
{
    match ty {
        TypeModel::Path(segs) => {
            if segs.len() == 0 {
                return false;
            }
            let last = segs.len() - 1;
            let seg = &segs[last];
            if is_main_thread_name(seg.ident.as_str()) {
                return true;
            }
            match &seg.args {
                SegmentArgs::Angle(args) => {
                    let mut found = false;
                    let mut j: usize = 0;
                    while j < args.len()
                        invariant
                            j <= args@.len(),
                            segs@.len() > 0,
                            last == segs@.len() - 1,
                            *ty == TypeModel::Path(*segs),
                            segs@[last as int].args == SegmentArgs::Angle(*args),
                            found == args_bound(args@, j as int),
                        decreases args@.len() - j,
                    {
                        if !found {
                            match &args[j] {
                                GenericArg::Type(t) => {
                                    proof {
                                        assert(decreases_to!(*ty => *t)) by {
                                            assert(decreases_to!(*ty => (*ty)->Path_0));
                                            assert(decreases_to!(*segs => segs@));
                                            assert(decreases_to!(segs@ => segs@[last as int]));
                                            assert(decreases_to!(segs@[last as int] => segs@[last as int].args));
                                            assert(decreases_to!(segs@[last as int].args => segs@[last as int].args->Angle_0));
                                            assert(decreases_to!(*args => args@));
                                            assert(decreases_to!(args@ => args@[j as int]));
                                            assert(decreases_to!(args@[j as int] => *t));
                                        }
                                    }
                                    found = is_main_thread_bound_return(t);
                                },
                                GenericArg::Other => {},
                            }
                        }
                        j = j + 1;
                    }
                    found
                },
                _ => false,
            }
        },
        TypeModel::Reference(_, inner) => is_main_thread_bound_return(inner),
        TypeModel::Paren(inner) => is_main_thread_bound_return(inner),
        TypeModel::Group(inner) => is_main_thread_bound_return(inner),
        TypeModel::Slice(inner) => is_main_thread_bound_return(inner),
        TypeModel::Array(inner, _) => is_main_thread_bound_return(inner),
        TypeModel::Tuple(elems) => {
            let mut found = false;
            let mut i: usize = 0;
            while i < elems.len()
                invariant
                    i <= elems@.len(),
                    *ty == TypeModel::Tuple(*elems),
                    found == elems_bound(elems@, i as int),
                decreases elems@.len() - i,
            {
                if !found {
                    proof {
                        assert(decreases_to!(*ty => elems@[i as int])) by {
                            assert(decreases_to!(*ty => (*ty)->Tuple_0));
                            assert(decreases_to!(*elems => elems@));
                            assert(decreases_to!(elems@ => elems@[i as int]));
                        }
                    }
                    found = is_main_thread_bound_return(&elems[i]);
                }
                i = i + 1;
            }
            found
        },
        TypeModel::Other => false,
    }
}

// ---------------------------------------------------------------------------
// Condition-call markers
// ---------------------------------------------------------------------------

/// The attribution a condition-call marker parameter selects: a bare `Call`
/// the wrapper's call, a bare `CallerCall` the caller's (by the last path
/// segment, without generic arguments).
pub open spec fn call_marker_of(ty: TypeModel) -> Option<CallAttribution> {
    match last_segment(ty) {
        Some(seg) => if !(seg.args is Bare) {
            None
        } else if seg.ident@ == "Call"@ {
            Some(CallAttribution::Wrapper)
        } else if seg.ident@ == "CallerCall"@ {
            Some(CallAttribution::Caller)
        } else {
            None
        },
        None => None,
    }
}

/// The attribution a condition-call marker parameter selects, if `ty` is one.
pub fn call_marker(ty: &TypeModel) -> (r: Option<CallAttribution>)
    ensures
        r == call_marker_of(*ty),
{
    match last_segment_of(ty) {
        Some(seg) => {
            match &seg.args {
                SegmentArgs::Bare => {},
                _ => return None,
            }
            if str_eq(seg.ident.as_str(), "Call") {
                Some(CallAttribution::Wrapper)
            } else if str_eq(seg.ident.as_str(), "CallerCall") {
                Some(CallAttribution::Caller)
            } else {
                None
            }
        },
        None => None,
    }
}

// ---------------------------------------------------------------------------
// Choice parameters
// ---------------------------------------------------------------------------

/// The two arms of an `Either<L, R>` type: exactly two type arguments.
pub open spec fn either_of(ty: TypeModel) -> Option<(TypeModel, TypeModel)> {
    match last_segment(ty) {
        Some(seg) => if seg.ident@ == "Either"@ && seg.args is Angle {
            match (nth_type_arg(seg, 0), nth_type_arg(seg, 1), nth_type_arg(seg, 2)) {
                (Some(l), Some(r), None) => Some((l, r)),
                _ => None,
            }
        } else {
            None
        },
        None => None,
    }
}

/// `(L, R)` for an `Either<L, R>` type.
pub fn either_arms(ty: &TypeModel) -> (r: Option<(&TypeModel, &TypeModel)>)
    ensures
        match r {
            Some((l, rr)) => either_of(*ty) == Some((*l, *rr)),
            None => either_of(*ty) is None,
        },
{
    let seg = match last_segment_of(ty) {
        Some(s) => s,
        None => return None,
    };
    if !str_eq(seg.ident.as_str(), "Either") {
        return None;
    }
    match &seg.args {
        SegmentArgs::Angle(_) => {},
        _ => return None,
    }
    match (nth_type_argument(seg, 0), nth_type_argument(seg, 1), nth_type_argument(seg, 2)) {
        (Some(l), Some(r), None) => Some((l, r)),
        _ => None,
    }
}

/// The layers around the value of a choice parameter, outermost first:
/// `Missing<..>`, then `Option<..>`, then `Either<T, R>` with the choice on
/// the left.
pub struct ChoiceLayers<'a> {
    /// `Missing<..>` is the outermost wrapper.
    pub missing: bool,
    /// `Option<..>` wraps the value (inside `Missing`, if present).
    pub nullable: bool,
    /// The `R` arm of an `Either<T, R>` around the value.
    pub either_right: Option<&'a TypeModel>,
    /// The type under the layers.
    pub value: &'a TypeModel,
}

/// The layers of a choice parameter's type as plain values: `Missing`,
/// `Option`, the `Either` right arm, the value.
pub open spec fn layers_of(ty: TypeModel) -> (bool, bool, Option<TypeModel>, TypeModel) {
    let (missing, t1) = match missing_inner(ty) {
        Some(inner) => (true, inner),
        None => (false, ty),
    };
    let (nullable, t2) = match option_inner(t1) {
        Some(inner) => (true, inner),
        None => (false, t1),
    };
    match either_of(t2) {
        Some((l, r)) => (missing, nullable, Some(r), l),
        None => (missing, nullable, None, t2),
    }
}

/// Peel the layers of a choice parameter's type.
pub fn choice_layers(ty: &TypeModel) -> (r: ChoiceLayers<'_>)
    ensures
        (r.missing, r.nullable, match r.either_right {
            Some(t) => Some(*t),
            None => None,
        }, *r.value) == layers_of(*ty),
{
    let (missing, t1) = match missing_inner_type(ty) {
        Some(inner) => (true, inner),
        None => (false, ty),
    };
    let (nullable, t2) = match option_inner_type(t1) {
        Some(inner) => (true, inner),
        None => (false, t1),
    };
    match either_arms(t2) {
        Some((l, r)) => ChoiceLayers { missing, nullable, either_right: Some(r), value: l },
        None => ChoiceLayers { missing, nullable, either_right: None, value: t2 },
    }
}

/// The layer a type is itself, when it sits where the choice value should:
/// `Missing`, `Option` or `Either`.
pub open spec fn layer_name_of(ty: TypeModel) -> Option<Seq<char>> {
    if missing_inner(ty) is Some {
        Some("Missing"@)
    } else if option_inner(ty) is Some {
        Some("Option"@)
    } else if either_of(ty) is Some {
        Some("Either"@)
    } else {
        None
    }
}

/// The layer name of `ty`, if it is a layer type.
pub fn choice_layer_name(ty: &TypeModel) -> (r: Option<&'static str>)
    ensures
        match r {
            Some(n) => layer_name_of(*ty) == Some(n@),
            None => layer_name_of(*ty) is None,
        },
{
    if missing_inner_type(ty).is_some() {
        Some("Missing")
    } else if option_inner_type(ty).is_some() {
        Some("Option")
    } else if either_arms(ty).is_some() {
        Some("Either")
    } else {
        None
    }
}

/// The containers of a `several_ok` parameter.
#[derive(Clone, Copy, Debug, PartialEq, Eq, Structural)]
pub enum SeveralOkContainer {
    /// `Vec<T>`
    Vec,
    /// `Box<[T]>`
    BoxedSlice,
    /// `[T; N]` with its length.
    Array(usize),
    /// `&[T]` or `&mut [T]`
    BorrowedSlice,
}

/// The element of the first slice type among the first `n` generic
/// arguments (`Box<[T]>`).
pub open spec fn first_slice_arg(args: Seq<GenericArg>, n: int) -> Option<TypeModel>
    decreases n,
{
    if n <= 0 || n > args.len() {
        None
    } else {
        match first_slice_arg(args, n - 1) {
            Some(t) => Some(t),
            None => match args[n - 1] {
                GenericArg::Type(TypeModel::Slice(e)) => Some(*e),
                _ => None,
            },
        }
    }
}

/// The container family and element type of a `several_ok` parameter:
/// `Vec<T>`, `Box<[T]>`, `[T; N]` with a literal length, `&[T]`.
pub open spec fn several_ok_of(ty: TypeModel) -> Option<(SeveralOkContainer, TypeModel)> {
    match ty {
        TypeModel::Path(segs) => if segs@.len() == 0 {
            None
        } else {
            let seg = segs@[segs@.len() - 1];
            if seg.ident@ == "Vec"@ {
                match first_type_arg(seg) {
                    Some(inner) => Some((SeveralOkContainer::Vec, inner)),
                    None => None,
                }
            } else if seg.ident@ == "Box"@ {
                match seg.args {
                    SegmentArgs::Angle(args) => match first_slice_arg(args@, args@.len() as int) {
                        Some(e) => Some((SeveralOkContainer::BoxedSlice, e)),
                        None => None,
                    },
                    _ => None,
                }
            } else {
                None
            }
        },
        TypeModel::Array(elem, Some(n)) => Some((SeveralOkContainer::Array(n), *elem)),
        TypeModel::Reference(_, inner) => match *inner {
            TypeModel::Slice(e) => Some((SeveralOkContainer::BorrowedSlice, *e)),
            _ => None,
        },
        _ => None,
    }
}

/// Classify a `several_ok` parameter type into its container family and
/// element type.
pub fn classify_several_ok_container(ty: &TypeModel) -> (r: Option<(SeveralOkContainer, &TypeModel)>)
    ensures
        match r {
            Some((c, e)) => several_ok_of(*ty) == Some((c, *e)),
            None => several_ok_of(*ty) is None,
        },
{
    match ty {
        TypeModel::Path(segs) => {
            if segs.len() == 0 {
                return None;
            }
            let seg = &segs[segs.len() - 1];
            if str_eq(seg.ident.as_str(), "Vec") {
                match first_type_argument(seg) {
                    Some(inner) => Some((SeveralOkContainer::Vec, inner)),
                    None => None,
                }
            } else if str_eq(seg.ident.as_str(), "Box") {
                match &seg.args {
                    SegmentArgs::Angle(args) => {
                        let mut i: usize = 0;
                        while i < args.len()
                            invariant
                                i <= args@.len(),
                                first_slice_arg(args@, i as int) is None,
                                *ty == TypeModel::Path(*segs),
                                segs@.len() > 0,
                                *seg == segs@[segs@.len() - 1],
                                seg.args == SegmentArgs::Angle(*args),
                                seg.ident@ == "Box"@,
                                seg.ident@ != "Vec"@,
                            decreases args@.len() - i,
                        {
                            match &args[i] {
                                GenericArg::Type(TypeModel::Slice(e)) => {
                                    proof {
                                        assert(first_slice_arg(args@, i + 1) == Some(**e));
                                        lemma_first_slice_arg_stable(args@, i + 1, args@.len() as int);
                                    }
                                    return Some((SeveralOkContainer::BoxedSlice, &**e));
                                },
                                _ => {},
                            }
                            i = i + 1;
                        }
                        None
                    },
                    _ => None,
                }
            } else {
                None
            }
        },
        TypeModel::Array(elem, Some(n)) => Some((SeveralOkContainer::Array(*n), &**elem)),
        TypeModel::Reference(_, inner) => match &**inner {
            TypeModel::Slice(e) => Some((SeveralOkContainer::BorrowedSlice, &**e)),
            _ => None,
        },
        _ => None,
    }
}

/// Once found, the first slice argument stays the same for longer prefixes.
proof fn lemma_first_slice_arg_stable(args: Seq<GenericArg>, n: int, m: int)
    requires
        0 < n <= m <= args.len(),
        first_slice_arg(args, n) is Some,
    ensures
        first_slice_arg(args, m) == first_slice_arg(args, n),
    decreases m - n,
{
    if m > n {
        lemma_first_slice_arg_stable(args, n, m - 1);
    }
}

/// The type behind a `match_arg` parameter that carries the choices: the
/// value under the layers, and for `several_ok` the element of its
/// container (the value itself when it is no container).
pub open spec fn choices_type_of(ty: TypeModel, several_ok: bool) -> TypeModel {
    let value = layers_of(ty).3;
    if several_ok {
        match several_ok_of(value) {
            Some((_, e)) => e,
            None => value,
        }
    } else {
        value
    }
}

/// The type behind a `match_arg` parameter that carries the choices.
pub fn match_arg_choices_ty(param_ty: &TypeModel, several_ok: bool) -> (r: &TypeModel)
    ensures
        *r == choices_type_of(*param_ty, several_ok),
{
    let value = choice_layers(param_ty).value;
    if several_ok {
        match classify_several_ok_container(value) {
            Some((_, inner)) => inner,
            None => value,
        }
    } else {
        value
    }
}

// ---------------------------------------------------------------------------
// R names of values
// ---------------------------------------------------------------------------

/// Whether `id` names one of the integer types R sees as integers.
pub open spec fn integer_name(id: Seq<char>) -> bool {
    ||| id == "i8"@
    ||| id == "i16"@
    ||| id == "i32"@
    ||| id == "i64"@
    ||| id == "isize"@
    ||| id == "u16"@
    ||| id == "u32"@
    ||| id == "u64"@
    ||| id == "usize"@
}

fn is_integer_name(id: &str) -> (r: bool)
    ensures
        r == integer_name(id@),
{
    str_eq(id, "i8") || str_eq(id, "i16") || str_eq(id, "i32") || str_eq(id, "i64") || str_eq(id, "isize")
        || str_eq(id, "u16") || str_eq(id, "u32") || str_eq(id, "u64") || str_eq(id, "usize")
}

/// How R names a vector of elements of type `elem`, if it has a name.
pub open spec fn vector_noun_of(elem: TypeModel) -> Option<Seq<char>>
    decreases elem,
{
    match elem {
        TypeModel::Path(segs) => if segs@.len() == 0 {
            None
        } else {
            let seg = segs@[segs@.len() - 1];
            let id = seg.ident@;
            if id == "f64"@ || id == "f32"@ {
                Some("a numeric vector"@)
            } else if integer_name(id) {
                Some("an integer vector"@)
            } else if id == "String"@ || id == "str"@ {
                Some("a character vector"@)
            } else if id == "bool"@ || id == "Rbool"@ || id == "Rboolean"@ {
                Some("a logical vector"@)
            } else if id == "u8"@ {
                Some("a raw vector"@)
            } else if id == "Option"@ {
                match seg.args {
                    SegmentArgs::Angle(args) => match nth_type_arg(seg, 0) {
                        Some(inner) => {
                            proof {
                                lemma_nth_type_arg_decreases(elem, 0);
                            }
                            vector_noun_of(inner)
                        },
                        None => None,
                    },
                    _ => None,
                }
            } else {
                None
            }
        },
        _ => None,
    }
}

/// A type argument of the last segment of a path is smaller than the path.
pub proof fn lemma_nth_type_arg_decreases(ty: TypeModel, n: nat)
    requires
        ty is Path,
        ty->Path_0@.len() > 0,
        nth_type_arg(ty->Path_0@[ty->Path_0@.len() - 1], n) is Some,
    ensures
        decreases_to!(ty => nth_type_arg(ty->Path_0@[ty->Path_0@.len() - 1], n)->Some_0),
{
    let segs = ty->Path_0;
    let seg = segs@[segs@.len() - 1];
    let args = seg.args->Angle_0;
    crate::types::lemma_type_arg_index_bound(args@, n);
    let k = crate::types::nth_type_arg_index(args@, n)->Some_0;
    let t = args@[k]->Type_0;
    assert(decreases_to!(ty => t)) by {
        assert(decreases_to!(ty => ty->Path_0));
        assert(decreases_to!(segs => segs@));
        assert(decreases_to!(segs@ => segs@[segs@.len() - 1]));
        assert(decreases_to!(seg => seg.args));
        assert(decreases_to!(seg.args => seg.args->Angle_0));
        assert(decreases_to!(args => args@));
        assert(decreases_to!(args@ => args@[k]));
        assert(decreases_to!(args@[k] => t));
    }
}

/// How R names a vector of elements of type `elem`, if it has a name.
pub fn vector_noun(elem: &TypeModel) -> (r: Option<&'static str>)
    ensures
        match r {
            Some(n) => vector_noun_of(*elem) == Some(n@),
            None => vector_noun_of(*elem) is None,
        },
    decreases elem,
{
    match elem {
        TypeModel::Path(segs) => {
            if segs.len() == 0 {
                return None;
            }
            let seg = &segs[segs.len() - 1];
            let id = seg.ident.as_str();
            if str_eq(id, "f64") || str_eq(id, "f32") {
                Some("a numeric vector")
            } else if is_integer_name(id) {
                Some("an integer vector")
            } else if str_eq(id, "String") || str_eq(id, "str") {
                Some("a character vector")
            } else if str_eq(id, "bool") || str_eq(id, "Rbool") || str_eq(id, "Rboolean") {
                Some("a logical vector")
            } else if str_eq(id, "u8") {
                Some("a raw vector")
            } else if str_eq(id, "Option") {
                match &seg.args {
                    SegmentArgs::Angle(_) => match first_type_argument(seg) {
                        Some(inner) => {
                            proof {
                                lemma_nth_type_arg_decreases(*elem, 0);
                            }
                            vector_noun(inner)
                        },
                        None => None,
                    },
                    _ => None,
                }
            } else {
                None
            }
        },
        _ => None,
    }
}

/// How R names a single value of the type named `id`, if it has a name.
pub open spec fn scalar_noun_of(id: Seq<char>) -> Option<Seq<char>> {
    if id == "DataFrame"@ || id == "BuiltDataFrame"@ {
        Some("a data frame"@)
    } else if id == "List"@ || id == "ListMut"@ || id == "NamedList"@ || id == "HashMap"@ || id == "BTreeMap"@ {
        Some("a list"@)
    } else if id == "String"@ || id == "str"@ || id == "char"@ || id == "PathBuf"@ || id == "Path"@ {
        Some("a string"@)
    } else if id == "f64"@ || id == "f32"@ {
        Some("a number"@)
    } else if integer_name(id) {
        Some("an integer"@)
    } else if id == "bool"@ || id == "Rbool"@ || id == "Rboolean"@ {
        Some("TRUE or FALSE"@)
    } else if id == "Rcomplex"@ {
        Some("a complex number"@)
    } else if id == "ExternalPtr"@ {
        Some("an external pointer"@)
    } else if id == "SEXP"@ {
        Some("any other R value"@)
    } else {
        None
    }
}

fn scalar_noun(id: &str) -> (r: Option<&'static str>)
    ensures
        match r {
            Some(n) => scalar_noun_of(id@) == Some(n@),
            None => scalar_noun_of(id@) is None,
        },
{
    if str_eq(id, "DataFrame") || str_eq(id, "BuiltDataFrame") {
        Some("a data frame")
    } else if str_eq(id, "List") || str_eq(id, "ListMut") || str_eq(id, "NamedList") || str_eq(id, "HashMap")
        || str_eq(id, "BTreeMap") {
        Some("a list")
    } else if str_eq(id, "String") || str_eq(id, "str") || str_eq(id, "char") || str_eq(id, "PathBuf") || str_eq(
        id,
        "Path",
    ) {
        Some("a string")
    } else if str_eq(id, "f64") || str_eq(id, "f32") {
        Some("a number")
    } else if is_integer_name(id) {
        Some("an integer")
    } else if str_eq(id, "bool") || str_eq(id, "Rbool") || str_eq(id, "Rboolean") {
        Some("TRUE or FALSE")
    } else if str_eq(id, "Rcomplex") {
        Some("a complex number")
    } else if str_eq(id, "ExternalPtr") {
        Some("an external pointer")
    } else if str_eq(id, "SEXP") {
        Some("any other R value")
    } else {
        None
    }
}

/// The R name of a value of type `ty`, with its article, if it has one:
/// references to anything but a slice are looked through, a slice or `Vec`
/// is named as a vector, a scalar by its type.
pub open spec fn value_noun_of(ty: TypeModel) -> Option<Seq<char>>
    decreases ty,
{
    match ty {
        TypeModel::Reference(_, inner) => match *inner {
            TypeModel::Slice(e) => vector_noun_of(*e),
            _ => value_noun_of(*inner),
        },
        TypeModel::Slice(e) => vector_noun_of(*e),
        TypeModel::Path(segs) => if segs@.len() == 0 {
            None
        } else {
            let seg = segs@[segs@.len() - 1];
            if seg.ident@ == "Vec"@ {
                match nth_type_arg(seg, 0) {
                    Some(inner) => vector_noun_of(inner),
                    None => None,
                }
            } else {
                scalar_noun_of(seg.ident@)
            }
        },
        _ => None,
    }
}

/// The R name of a value of type `ty`, if it has one.
pub fn value_noun(ty: &TypeModel) -> (r: Option<&'static str>)
    ensures
        match r {
            Some(n) => value_noun_of(*ty) == Some(n@),
            None => value_noun_of(*ty) is None,
        },
    decreases ty,
{
    match ty {
        TypeModel::Reference(_, inner) => match &**inner {
            TypeModel::Slice(e) => vector_noun(e),
            _ => value_noun(inner),
        },
        TypeModel::Slice(e) => vector_noun(e),
        TypeModel::Path(segs) => {
            if segs.len() == 0 {
                return None;
            }
            let seg = &segs[segs.len() - 1];
            if str_eq(seg.ident.as_str(), "Vec") {
                match first_type_argument(seg) {
                    Some(inner) => vector_noun(inner),
                    None => None,
                }
            } else {
                scalar_noun(seg.ident.as_str())
            }
        },
        _ => None,
    }
}

/// How R documentation names a value of type `ty`: its R name, else the
/// type in code format, `display` being the type as written in Rust source
/// (for a reference to anything but a slice, the referenced type).
pub fn r_value_noun(ty: &TypeModel, display: &str) -> (r: String)
    ensures
        r@ == match value_noun_of(*ty) {
            Some(n) => n,
            None => "a `"@ + display@ + "`"@,
        },
{
    match value_noun(ty) {
        Some(n) => owned(n),
        None => concat3("a `", display, "`"),
    }
}

// ---------------------------------------------------------------------------
// Types as written in source, for messages
// ---------------------------------------------------------------------------

/// What the previous token leaves for the next one to attach to.
#[derive(Clone, Copy, Debug, PartialEq, Eq, Structural)]
pub enum Prev {
    /// The start, or a token after which nothing is spaced (`<`, `&`, `*`,
    /// `::`, or a punctuation that already wrote its space, like `, `).
    Glue,
    /// A lifetime's `'`: the next identifier attaches.
    Tick,
    /// An identifier, a literal, a group or a closing `>`: a following word
    /// is spaced.
    Word,
    /// `mut`, `const`, `dyn`, `impl` or a lifetime: a following word or
    /// group is spaced.
    Keyword,
}

/// The state of the renderer between two tokens: what the previous token
/// leaves, and whether a `-` of `->` or the first `:` of `::` is pending.
#[derive(Clone, Copy, Debug, PartialEq, Eq, Structural)]
pub struct RenderState {
    pub prev: Prev,
    pub pending_arrow: bool,
    pub pending_path_sep: bool,
}

/// The state at the start of a token stream (and inside each group).
pub open spec fn fresh_render() -> RenderState {
    RenderState { prev: Prev::Glue, pending_arrow: false, pending_path_sep: false }
}

/// The space before a word: after a word or a keyword.
pub open spec fn word_gap(prev: Prev) -> Seq<char> {
    if prev == Prev::Word || prev == Prev::Keyword {
        seq![' ']
    } else {
        Seq::empty()
    }
}

/// The words after which a word or a group is spaced.
pub open spec fn is_modifier_word(name: Seq<char>) -> bool {
    name == "mut"@ || name == "const"@ || name == "dyn"@ || name == "impl"@
}

/// The opening text of a group.
pub open spec fn group_open(d: Delimiter) -> Seq<char> {
    match d {
        Delimiter::Parenthesis => seq!['('],
        Delimiter::Bracket => seq!['['],
        Delimiter::Brace => seq!['{'],
        Delimiter::Invisible => Seq::empty(),
    }
}

/// The closing text of a group.
pub open spec fn group_close(d: Delimiter) -> Seq<char> {
    match d {
        Delimiter::Parenthesis => seq![')'],
        Delimiter::Bracket => seq![']'],
        Delimiter::Brace => seq!['}'],
        Delimiter::Invisible => Seq::empty(),
    }
}

/// The state with another `prev`.
pub open spec fn with_prev(st: RenderState, prev: Prev) -> RenderState {
    RenderState { prev, pending_arrow: st.pending_arrow, pending_path_sep: st.pending_path_sep }
}

/// The text one punctuation character writes, and the state after it:
/// `, ` and `; `; ` + ` and ` = `; ` -> ` for an arrow; `::` with nothing
/// around it; `: ` for a bound; `'` that glues to its name; any other
/// character as it is.
pub open spec fn render_punct(c: char, sp: Spacing, st: RenderState) -> (Seq<char>, RenderState) {
    if c == ',' || c == ';' {
        (seq![c, ' '], with_prev(st, Prev::Glue))
    } else if c == '+' || c == '=' {
        (seq![' ', c, ' '], with_prev(st, Prev::Glue))
    } else if c == '-' && sp == Spacing::Joint {
        (seq![' ', '-'], RenderState { prev: st.prev, pending_arrow: true, pending_path_sep: st.pending_path_sep })
    } else if c == '>' && st.pending_arrow {
        (seq!['>', ' '], RenderState { prev: Prev::Glue, pending_arrow: false, pending_path_sep: st.pending_path_sep })
    } else if c == '>' {
        (seq!['>'], with_prev(st, Prev::Word))
    } else if c == ':' && sp == Spacing::Joint {
        (seq![':'], RenderState { prev: Prev::Glue, pending_arrow: st.pending_arrow, pending_path_sep: true })
    } else if c == ':' && st.pending_path_sep {
        (seq![':'], RenderState { prev: Prev::Glue, pending_arrow: st.pending_arrow, pending_path_sep: false })
    } else if c == ':' {
        (seq![':', ' '], with_prev(st, Prev::Glue))
    } else if c == '\'' {
        (word_gap(st.prev).push('\''), with_prev(st, Prev::Tick))
    } else {
        (seq![c], with_prev(st, Prev::Glue))
    }
}

/// The text one token writes, and the state after it.
pub open spec fn render_token(t: TokenTree, st: RenderState) -> (Seq<char>, RenderState)
    decreases t, 0int,
{
    match t {
        TokenTree::Ident(name) => (
            word_gap(st.prev) + name@,
            with_prev(
                st,
                if st.prev == Prev::Tick || is_modifier_word(name@) {
                    Prev::Keyword
                } else {
                    Prev::Word
                },
            ),
        ),
        TokenTree::Literal(lit) => (word_gap(st.prev) + lit@, with_prev(st, Prev::Word)),
        TokenTree::Group(d, inner) => (
            (if st.prev == Prev::Keyword || (st.prev == Prev::Word && d == Delimiter::Bracket) {
                seq![' ']
            } else {
                Seq::empty()
            }) + group_open(d) + render_from(inner@, 0, fresh_render()) + group_close(d),
            with_prev(st, Prev::Word),
        ),
        TokenTree::Punct(c, sp) => render_punct(c, sp, st),
    }
}

/// The text of the tokens `s[i..]`, starting in state `st`.
pub open spec fn render_from(s: Seq<TokenTree>, i: int, st: RenderState) -> Seq<char>
    decreases s, s.len() - i,
{
    if i < 0 || i >= s.len() {
        Seq::empty()
    } else {
        let step = render_token(s[i], st);
        step.0 + render_from(s, i + 1, step.1)
    }
}

fn word_gap_len(prev: Prev) -> (r: bool)
    ensures
        word_gap(prev) == (if r {
            seq![' ']
        } else {
            Seq::<char>::empty()
        }),
{
    match prev {
        Prev::Word => true,
        Prev::Keyword => true,
        _ => false,
    }
}

fn set_prev(st: RenderState, prev: Prev) -> (r: RenderState)
    ensures
        r == with_prev(st, prev),
{
    RenderState { prev, pending_arrow: st.pending_arrow, pending_path_sep: st.pending_path_sep }
}

fn write_punct(c: char, sp: Spacing, st: RenderState, out: &mut String) -> (r: RenderState)
    ensures
        final(out)@ == old(out)@ + render_punct(c, sp, st).0,
        r == render_punct(c, sp, st).1,
{
    let joint = match sp {
        Spacing::Joint => true,
        Spacing::Alone => false,
    };
    if c == ',' || c == ';' {
        push_char(out, c);
        push_char(out, ' ');
        assert(seq![c, ' '] =~= seq![c].push(' '));
        set_prev(st, Prev::Glue)
    } else if c == '+' || c == '=' {
        push_char(out, ' ');
        push_char(out, c);
        push_char(out, ' ');
        assert(seq![' ', c, ' '] =~= seq![' '].push(c).push(' '));
        set_prev(st, Prev::Glue)
    } else if c == '-' && joint {
        push_char(out, ' ');
        push_char(out, '-');
        RenderState { prev: st.prev, pending_arrow: true, pending_path_sep: st.pending_path_sep }
    } else if c == '>' && st.pending_arrow {
        push_char(out, '>');
        push_char(out, ' ');
        RenderState { prev: Prev::Glue, pending_arrow: false, pending_path_sep: st.pending_path_sep }
    } else if c == '>' {
        push_char(out, '>');
        set_prev(st, Prev::Word)
    } else if c == ':' && joint {
        push_char(out, ':');
        RenderState { prev: Prev::Glue, pending_arrow: st.pending_arrow, pending_path_sep: true }
    } else if c == ':' && st.pending_path_sep {
        push_char(out, ':');
        RenderState { prev: Prev::Glue, pending_arrow: st.pending_arrow, pending_path_sep: false }
    } else if c == ':' {
        push_char(out, ':');
        push_char(out, ' ');
        set_prev(st, Prev::Glue)
    } else if c == '\'' {
        if word_gap_len(st.prev) {
            push_char(out, ' ');
        }
        push_char(out, '\'');
        set_prev(st, Prev::Tick)
    } else {
        push_char(out, c);
        set_prev(st, Prev::Glue)
    }
}

fn write_type_tokens(tokens: &Vec<TokenTree>, out: &mut String)
    ensures
        final(out)@ == old(out)@ + render_from(tokens@, 0, fresh_render()),
    decreases tokens@,
{
    let ghost start = out@;
    let mut st = RenderState { prev: Prev::Glue, pending_arrow: false, pending_path_sep: false };
    let mut i: usize = 0;
    while i < tokens.len()
        invariant
            i <= tokens@.len(),
            start + render_from(tokens@, 0, fresh_render()) == out@ + render_from(tokens@, i as int, st),
        decreases tokens@.len() - i,
    {
        let ghost before = out@;
        let ghost step = render_token(tokens@[i as int], st);
        match &tokens[i] {
            TokenTree::Ident(name) => {
                if word_gap_len(st.prev) {
                    push_char(out, ' ');
                }
                out.append(name.as_str());
                let tick = match st.prev {
                    Prev::Tick => true,
                    _ => false,
                };
                let n = name.as_str();
                let modifier = str_eq(n, "mut") || str_eq(n, "const") || str_eq(n, "dyn") || str_eq(n, "impl");
                st = set_prev(st, if tick || modifier {
                    Prev::Keyword
                } else {
                    Prev::Word
                });
            },
            TokenTree::Literal(lit) => {
                if word_gap_len(st.prev) {
                    push_char(out, ' ');
                }
                out.append(lit.as_str());
                st = set_prev(st, Prev::Word);
            },
            TokenTree::Group(d, inner) => {
                let spaced = match st.prev {
                    Prev::Keyword => true,
                    Prev::Word => match d {
                        Delimiter::Bracket => true,
                        _ => false,
                    },
                    _ => false,
                };
                if spaced {
                    push_char(out, ' ');
                }
                let (open, close) = match d {
                    Delimiter::Parenthesis => (Some('('), Some(')')),
                    Delimiter::Bracket => (Some('['), Some(']')),
                    Delimiter::Brace => (Some('{'), Some('}')),
                    Delimiter::Invisible => (None, None),
                };
                match open {
                    Some(c) => push_char(out, c),
                    None => {},
                }
                proof {
                    assert(decreases_to!(tokens@ => tokens@[i as int]));
                    assert(decreases_to!(tokens@[i as int] => inner@)) by {
                        assert(decreases_to!(tokens@[i as int] => tokens@[i as int]->Group_1));
                        assert(decreases_to!(*inner => inner@));
                    }
                }
                write_type_tokens(inner, out);
                match close {
                    Some(c) => push_char(out, c),
                    None => {},
                }
                st = set_prev(st, Prev::Word);
            },
            TokenTree::Punct(c, sp) => {
                st = write_punct(*c, *sp, st, out);
            },
        }
        assert(out@ =~= before + step.0);
        assert(st == step.1);
        i = i + 1;
    }
}

/// A type's tokens written the way Rust source spells them, for messages
/// (`AsFromStrVec<i32>`, `&'a [f64]`, `Box<dyn Fn(i32) -> i32 + Send>`):
/// no space around `<`, `>` or `::`, after `&`, `*` or `'`, or inside
/// brackets; a space after `,` and `;`, around `+`, `=` and `->`, between
/// two words, and between `mut`, `const`, `dyn`, `impl` or a lifetime and
/// a following group.
pub fn type_display(tokens: &Vec<TokenTree>) -> (r: String)
    ensures
        r@ == render_from(tokens@, 0, fresh_render()),
{
    let mut out = String::new();
    write_type_tokens(tokens, &mut out);
    out
}

// ---------------------------------------------------------------------------
// Lifetimes erased
// ---------------------------------------------------------------------------

/// Whether `b[j..]` is `a[i..]` with every lifetime replaced by `'_`: a
/// `'` keeps its place and the identifier after it becomes `_` (any other
/// token right after a `'` is dropped); groups are erased inside; every
/// other token stays as it is.
pub open spec fn erased_from(a: Seq<TokenTree>, i: int, b: Seq<TokenTree>, j: int) -> bool
    decreases a, a.len() - i,
{
    if i < 0 || j < 0 {
        false
    } else if i >= a.len() {
        j == b.len()
    } else if j >= b.len() {
        false
    } else {
        match a[i] {
            TokenTree::Punct(c, _) => if c == '\'' {
                b[j] == a[i] && if i + 1 < a.len() {
                    if a[i + 1] is Ident {
                        j + 1 < b.len() && b[j + 1] is Ident && b[j + 1]->Ident_0@ == "_"@ && erased_from(a, i + 2, b, j + 2)
                    } else {
                        erased_from(a, i + 2, b, j + 1)
                    }
                } else {
                    erased_from(a, i + 1, b, j + 1)
                }
            } else {
                b[j] == a[i] && erased_from(a, i + 1, b, j + 1)
            },
            TokenTree::Group(d, inner) => b[j] is Group && b[j]->Group_0 == d && erased_from(inner@, 0, b[j]->Group_1@, 0)
                && erased_from(a, i + 1, b, j + 1),
            _ => b[j] == a[i] && erased_from(a, i + 1, b, j + 1),
        }
    }
}

/// Prepending output tokens shifts where the rest is read.
proof fn lemma_erased_shift(a: Seq<TokenTree>, i: int, p: Seq<TokenTree>, b: Seq<TokenTree>, j: int)
    requires
        0 <= j,
    ensures
        erased_from(a, i, p + b, p.len() + j) == erased_from(a, i, b, j),
    decreases a, a.len() - i,
{
    let pb = p + b;
    let k = p.len() + j;
    if i < 0 || i >= a.len() || j >= b.len() {
    } else {
        assert(pb[k] == b[j]);
        if k + 1 < pb.len() {
            assert(pb[k + 1] == b[j + 1]);
        }
        match a[i] {
            TokenTree::Punct(c, _) => {
                if c == '\'' && i + 1 < a.len() {
                    if a[i + 1] is Ident {
                        lemma_erased_shift(a, i + 2, p, b, j + 2);
                    } else {
                        lemma_erased_shift(a, i + 2, p, b, j + 1);
                    }
                } else {
                    lemma_erased_shift(a, i + 1, p, b, j + 1);
                }
            },
            _ => {
                lemma_erased_shift(a, i + 1, p, b, j + 1);
            },
        }
    }
}

/// `tokens` with every lifetime replaced by `'_` (`&'a [f64]` becomes
/// `&'_ [f64]`), for a binding annotation that must not name the user's
/// lifetime parameters.
pub fn erase_lifetime_tokens(tokens: Vec<TokenTree>) -> (r: Vec<TokenTree>)
    ensures
        erased_from(tokens@, 0, r@, 0),
    decreases tokens@,
{
    let ghost all = tokens@;
    let n: usize = tokens.len();
    let mut rest = tokens;
    let mut out: Vec<TokenTree> = Vec::new();
    let mut i: usize = 0;
    while rest.len() > 0
        invariant
            all == tokens@,
            all.len() == n,
            i <= n,
            rest@ == all.subrange(i as int, n as int),
            forall|b2: Seq<TokenTree>| erased_from(all, i as int, b2, 0) ==> erased_from(all, 0, out@ + b2, 0),
        decreases rest@.len(),
    {
        let t = rest.remove(0);
        assert(t == all[i as int]);
        let ghost before = out@;
        match t {
            TokenTree::Punct(c, sp) => {
                let is_tick = c == '\'';
                out.push(TokenTree::Punct(c, sp));
                if is_tick && rest.len() > 0 {
                    let next = rest.remove(0);
                    assert(next == all[i as int + 1]);
                    match next {
                        TokenTree::Ident(_) => {
                            out.push(TokenTree::Ident(String::from_str("_")));
                            proof {
                                assert forall|b2: Seq<TokenTree>| erased_from(all, i as int + 2, b2, 0) implies erased_from(
                                    all,
                                    0,
                                    out@ + b2,
                                    0,
                                ) by {
                                    let lead = seq![all[i as int], out@[before.len() + 1int]];
                                    lemma_erased_shift(all, i as int + 2, lead, b2, 0);
                                    assert((lead + b2)[0] == all[i as int]);
                                    assert((lead + b2)[1] == out@[before.len() + 1int]);
                                    assert(erased_from(all, i as int, lead + b2, 0));
                                    assert(before + (lead + b2) =~= out@ + b2);
                                }
                            }
                        },
                        _ => {
                            proof {
                                assert forall|b2: Seq<TokenTree>| erased_from(all, i as int + 2, b2, 0) implies erased_from(
                                    all,
                                    0,
                                    out@ + b2,
                                    0,
                                ) by {
                                    let lead = seq![all[i as int]];
                                    lemma_erased_shift(all, i as int + 2, lead, b2, 0);
                                    assert((lead + b2)[0] == all[i as int]);
                                    assert(erased_from(all, i as int, lead + b2, 0));
                                    assert(before + (lead + b2) =~= out@ + b2);
                                }
                            }
                        },
                    }
                    i = i + 2;
                } else {
                    proof {
                        assert forall|b2: Seq<TokenTree>| erased_from(all, i as int + 1, b2, 0) implies erased_from(
                            all,
                            0,
                            out@ + b2,
                            0,
                        ) by {
                            let lead = seq![all[i as int]];
                            lemma_erased_shift(all, i as int + 1, lead, b2, 0);
                            assert((lead + b2)[0] == all[i as int]);
                            assert(erased_from(all, i as int, lead + b2, 0));
                            assert(before + (lead + b2) =~= out@ + b2);
                        }
                    }
                    i = i + 1;
                }
            },
            TokenTree::Group(d, inner) => {
                proof {
                    assert(decreases_to!(all => all[i as int]));
                    assert(decreases_to!(all[i as int] => inner@)) by {
                        assert(decreases_to!(all[i as int] => all[i as int]->Group_1));
                        assert(decreases_to!(inner => inner@));
                    }
                }
                let ghost inner_seq = inner@;
                let erased = erase_lifetime_tokens(inner);
                out.push(TokenTree::Group(d, erased));
                proof {
                    assert forall|b2: Seq<TokenTree>| erased_from(all, i as int + 1, b2, 0) implies erased_from(
                        all,
                        0,
                        out@ + b2,
                        0,
                    ) by {
                        let lead = seq![out@[before.len() as int]];
                        lemma_erased_shift(all, i as int + 1, lead, b2, 0);
                        assert((lead + b2)[0] == out@[before.len() as int]);
                        assert(erased_from(all, i as int, lead + b2, 0));
                        assert(before + (lead + b2) =~= out@ + b2);
                    }
                }
                i = i + 1;
            },
            TokenTree::Ident(x) => {
                out.push(TokenTree::Ident(x));
                proof {
                    assert forall|b2: Seq<TokenTree>| erased_from(all, i as int + 1, b2, 0) implies erased_from(
                        all,
                        0,
                        out@ + b2,
                        0,
                    ) by {
                        let lead = seq![all[i as int]];
                        lemma_erased_shift(all, i as int + 1, lead, b2, 0);
                        assert((lead + b2)[0] == all[i as int]);
                        assert(erased_from(all, i as int, lead + b2, 0));
                        assert(before + (lead + b2) =~= out@ + b2);
                    }
                }
                i = i + 1;
            },
            TokenTree::Literal(x) => {
                out.push(TokenTree::Literal(x));
                proof {
                    assert forall|b2: Seq<TokenTree>| erased_from(all, i as int + 1, b2, 0) implies erased_from(
                        all,
                        0,
                        out@ + b2,
                        0,
                    ) by {
                        let lead = seq![all[i as int]];
                        lemma_erased_shift(all, i as int + 1, lead, b2, 0);
                        assert((lead + b2)[0] == all[i as int]);
                        assert(erased_from(all, i as int, lead + b2, 0));
                        assert(before + (lead + b2) =~= out@ + b2);
                    }
                }
                i = i + 1;
            },
        }
    }
    assert(erased_from(all, n as int, Seq::<TokenTree>::empty(), 0));
    assert(out@ + Seq::<TokenTree>::empty() =~= out@);
    out
}

} // verus!
