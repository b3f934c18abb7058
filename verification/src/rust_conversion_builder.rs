//! The knobs of the Rust-side conversion of R arguments: coercion, strict
//! conversion of lossy types, the `match_arg` parameters that take special
//! conversions, and the condition classes of a failed conversion.
use vstd::prelude::*;
use crate::r_preconditions::{coercion_mapping, coercion_of, conversion_expectation, conversion_expectation_of, CoercionMapping};
use crate::r_wrapper_builder::{normalize_r_arg_string, r_arg_name};
use crate::return_wrap::{ident_name, ident_text};
use crate::text::{concat3, concat4, concat5, contains_string, decimal, owned, push_decimal, views};
use crate::tokens::TokenTree;
use crate::type_inspect::{call_marker, call_marker_of, classify_several_ok_container, render_from, fresh_render, several_ok_of, type_display, SeveralOkContainer};
use crate::types::{is_unit, is_unit_type, last_ident, last_ident_is, option_inner, option_inner_type, SegmentArgs, TypeModel};

verus! {

/// The settings that shape the conversion of each parameter.
pub struct RustConversionBuilder {
    /// Coerce every parameter.
    pub coerce_all: bool,
    /// The parameters that are coerced by name.
    pub coerce_params: Vec<String>,
    /// Convert lossy types (`i64`, `u64`, `isize`, `usize` and their `Vec`s)
    /// strictly.
    pub strict: bool,
    /// The `match_arg` + `several_ok` parameters.
    pub match_arg_several_ok_params: Vec<String>,
    /// The `Option<T>` scalar `match_arg` parameters.
    pub match_arg_optional_params: Vec<String>,
    /// The crate's extra condition classes of a failed conversion.
    pub conversion_error_class: Vec<String>,
}

/// Whether the builder coerces the parameter `name`.
pub open spec fn coerces(b: RustConversionBuilder, name: Seq<char>) -> bool {
    b.coerce_all || views(b.coerce_params@).contains(name)
}

impl RustConversionBuilder {
    /// A builder with every knob off and no extra condition class (the
    /// crate's classes are set with
    /// [`with_conversion_error_class`](Self::with_conversion_error_class)).
    pub fn new() -> (r: Self)
        ensures
            !r.coerce_all,
            r.coerce_params@.len() == 0,
            !r.strict,
            r.match_arg_several_ok_params@.len() == 0,
            r.match_arg_optional_params@.len() == 0,
            r.conversion_error_class@.len() == 0,
    {
        RustConversionBuilder {
            coerce_all: false,
            coerce_params: Vec::new(),
            strict: false,
            match_arg_several_ok_params: Vec::new(),
            match_arg_optional_params: Vec::new(),
            conversion_error_class: Vec::new(),
        }
    }

    /// Use these condition classes for a failed conversion.
    pub fn with_conversion_error_class(self, classes: Vec<String>) -> (r: Self)
        ensures
            r == (RustConversionBuilder { conversion_error_class: classes, ..self }),
    {
        RustConversionBuilder { conversion_error_class: classes, ..self }
    }

    /// Coerce every parameter.
    pub fn with_coerce_all(self) -> (r: Self)
        ensures
            r == (RustConversionBuilder { coerce_all: true, ..self }),
    {
        RustConversionBuilder { coerce_all: true, ..self }
    }

    /// Coerce the parameter `param_name` (as named in the signature).
    pub fn with_coerce_param(self, param_name: String) -> (r: Self)
        ensures
            r.coerce_params@ == self.coerce_params@.push(param_name),
            r.coerce_all == self.coerce_all,
            r.strict == self.strict,
            r.match_arg_several_ok_params == self.match_arg_several_ok_params,
            r.match_arg_optional_params == self.match_arg_optional_params,
            r.conversion_error_class == self.conversion_error_class,
    {
        let mut b = self;
        b.coerce_params.push(param_name);
        b
    }

    /// Convert lossy types strictly.
    pub fn with_strict(self) -> (r: Self)
        ensures
            r == (RustConversionBuilder { strict: true, ..self }),
    {
        RustConversionBuilder { strict: true, ..self }
    }

    /// Mark `param_name` as a `match_arg` + `several_ok` parameter.
    pub fn with_match_arg_several_ok(self, param_name: String) -> (r: Self)
        ensures
            r.match_arg_several_ok_params@ == self.match_arg_several_ok_params@.push(param_name),
            r.coerce_all == self.coerce_all,
            r.coerce_params == self.coerce_params,
            r.strict == self.strict,
            r.match_arg_optional_params == self.match_arg_optional_params,
            r.conversion_error_class == self.conversion_error_class,
    {
        let mut b = self;
        b.match_arg_several_ok_params.push(param_name);
        b
    }

    /// Mark `param_name` as an `Option<T>` scalar `match_arg` parameter.
    pub fn with_match_arg_optional(self, param_name: String) -> (r: Self)
        ensures
            r.match_arg_optional_params@ == self.match_arg_optional_params@.push(param_name),
            r.coerce_all == self.coerce_all,
            r.coerce_params == self.coerce_params,
            r.strict == self.strict,
            r.match_arg_several_ok_params == self.match_arg_several_ok_params,
            r.conversion_error_class == self.conversion_error_class,
    {
        let mut b = self;
        b.match_arg_optional_params.push(param_name);
        b
    }

    /// Whether the parameter `param_name` is coerced.
    pub fn should_coerce(&self, param_name: &str) -> (r: bool)
        ensures
            r == coerces(*self, param_name@),
    {
        self.coerce_all || contains_string(self.coerce_params.as_slice(), param_name)
    }
}

impl Default for RustConversionBuilder {
    fn default() -> (r: Self)
        ensures
            !r.coerce_all,
            r.coerce_params@.len() == 0,
            !r.strict,
            r.match_arg_several_ok_params@.len() == 0,
            r.match_arg_optional_params@.len() == 0,
            r.conversion_error_class@.len() == 0,
    {
        Self::new()
    }
}

// ---------------------------------------------------------------------------
// The conversion of one argument
// ---------------------------------------------------------------------------

/// How one argument is converted from its `SEXP` in the C wrapper.
#[derive(Clone, Copy, Debug, PartialEq, Eq, Structural)]
pub enum ConversionPlan {
    /// The parameter's pattern is not a plain identifier: nothing is bound.
    Skip,
    /// A `Call` / `CallerCall` marker on a class or trait method: a compile
    /// error (only standalone functions bind it from the call slot).
    CallMarkerOnMethod,
    /// `()`: bound to `()`.
    Unit,
    /// `&[T]` / `&mut [T]` under `match_arg` + `several_ok`: a `Vec<T>`
    /// converted before the call (mutable for `&mut`), borrowed in the call.
    BorrowedChoices { mutable: bool },
    /// `&Dots`: a `Dots` wrapper with its own storage.
    Dots,
    /// `&[T]`: `TryFromSexp` into the reference type with its lifetimes
    /// erased.
    Slice,
    /// `&str` borrowed from R's string pool (main thread).
    StrZeroCopy,
    /// `&str` through an owned `String` converted before the call and
    /// borrowed in it (worker thread).
    StrOwned,
    /// Any other reference: `TryFromSexp` into it.
    Reference,
    /// Strict mode: the checked conversion of a lossy type.
    Strict,
    /// `Option<T>` under `match_arg`: `NULL` is `None`, else the scalar
    /// match.
    OptionalChoice,
    /// `match_arg` + `several_ok` into a container.
    Choices(SeveralOkContainer),
    /// A coercing conversion.
    Coerced(CoercionMapping),
    /// `TryFromSexp::try_from_sexp`.
    Plain,
}

/// Whether `ty` is the plain path `str`.
pub open spec fn is_str_path(ty: TypeModel) -> bool {
    match ty {
        TypeModel::Path(segs) => segs@.len() == 1 && segs@[0].ident@ == "str"@ && segs@[0].args == SegmentArgs::Bare,
        _ => false,
    }
}

/// The conversion of the parameter `ident` (`None` when its pattern is not
/// a plain identifier) of type `ty`; `zero_copy_str` on the main-thread
/// path, `strict_available` when a checked conversion exists for the type.
pub open spec fn plan_of(
    b: RustConversionBuilder,
    ident: Option<Seq<char>>,
    ty: TypeModel,
    zero_copy_str: bool,
    strict_available: bool,
) -> ConversionPlan {
    match ident {
        None => ConversionPlan::Skip,
        Some(id) => {
            let name = ident_text(id);
            if call_marker_of(ty) is Some {
                ConversionPlan::CallMarkerOnMethod
            } else if is_unit(ty) {
                ConversionPlan::Unit
            } else {
                match ty {
                    TypeModel::Reference(m, inner) => {
                        if *inner is Slice && views(b.match_arg_several_ok_params@).contains(name) && (several_ok_of(ty)
                            matches Some(p) && p.0 == SeveralOkContainer::BorrowedSlice) {
                            ConversionPlan::BorrowedChoices { mutable: m }
                        } else if last_ident(*inner) == Some("Dots"@) {
                            ConversionPlan::Dots
                        } else if *inner is Slice {
                            ConversionPlan::Slice
                        } else if is_str_path(*inner) {
                            if zero_copy_str {
                                ConversionPlan::StrZeroCopy
                            } else {
                                ConversionPlan::StrOwned
                            }
                        } else {
                            ConversionPlan::Reference
                        }
                    },
                    _ => if b.strict && strict_available {
                        ConversionPlan::Strict
                    } else if views(b.match_arg_optional_params@).contains(name) && option_inner(ty) is Some {
                        ConversionPlan::OptionalChoice
                    } else if views(b.match_arg_several_ok_params@).contains(name) && several_ok_of(ty) is Some {
                        ConversionPlan::Choices(several_ok_of(ty)->Some_0.0)
                    } else if coerces(b, name) && coercion_of(ty) is Some {
                        ConversionPlan::Coerced(coercion_of(ty)->Some_0)
                    } else {
                        ConversionPlan::Plain
                    },
                }
            }
        },
    }
}

fn plain_str_path(ty: &TypeModel) -> (r: bool)
    ensures
        r == is_str_path(*ty),
{
    match ty {
        TypeModel::Path(segs) => segs.len() == 1 && crate::text::str_eq(segs[0].ident.as_str(), "str") && match &segs[0].args {
            SegmentArgs::Bare => true,
            _ => false,
        },
        _ => false,
    }
}

impl RustConversionBuilder {
    /// How the parameter `ident` (`None` when its pattern is not a plain
    /// identifier) of type `ty` is converted: `zero_copy_str` on the
    /// main-thread path (a `&str` then borrows R's string), and
    /// `strict_available` when strict mode has a checked conversion for the
    /// type.
    pub fn conversion_plan(&self, ident: Option<&str>, ty: &TypeModel, zero_copy_str: bool, strict_available: bool) -> (r:
        ConversionPlan)
        ensures
            r == plan_of(
                *self,
                match ident {
                    Some(i) => Some(i@),
                    None => None,
                },
                *ty,
                zero_copy_str,
                strict_available,
            ),
    {
        let id = match ident {
            None => {
                return ConversionPlan::Skip;
            },
            Some(i) => i,
        };
        let name = ident_name(id);
        if call_marker(ty).is_some() {
            return ConversionPlan::CallMarkerOnMethod;
        }
        if is_unit_type(ty) {
            return ConversionPlan::Unit;
        }
        match ty {
            TypeModel::Reference(m, inner) => {
                let is_slice = match &**inner {
                    TypeModel::Slice(_) => true,
                    _ => false,
                };
                if is_slice && contains_string(self.match_arg_several_ok_params.as_slice(), name.as_str()) {
                    match classify_several_ok_container(ty) {
                        Some((SeveralOkContainer::BorrowedSlice, _)) => {
                            return ConversionPlan::BorrowedChoices { mutable: *m };
                        },
                        _ => {},
                    }
                }
                if last_ident_is(inner, "Dots") {
                    ConversionPlan::Dots
                } else if is_slice {
                    ConversionPlan::Slice
                } else if plain_str_path(inner) {
                    if zero_copy_str {
                        ConversionPlan::StrZeroCopy
                    } else {
                        ConversionPlan::StrOwned
                    }
                } else {
                    ConversionPlan::Reference
                }
            },
            _ => {
                if self.strict && strict_available {
                    return ConversionPlan::Strict;
                }
                if contains_string(self.match_arg_optional_params.as_slice(), name.as_str()) && option_inner_type(
                    ty,
                ).is_some() {
                    return ConversionPlan::OptionalChoice;
                }
                if contains_string(self.match_arg_several_ok_params.as_slice(), name.as_str()) {
                    match classify_several_ok_container(ty) {
                        Some((c, _)) => {
                            return ConversionPlan::Choices(c);
                        },
                        None => {},
                    }
                }
                if self.should_coerce(name.as_str()) {
                    match coercion_mapping(ty) {
                        Some(mapping) => {
                            return ConversionPlan::Coerced(mapping);
                        },
                        None => {},
                    }
                }
                ConversionPlan::Plain
            },
        }
    }
}

/// What a failed conversion of one argument reports: the message prefix,
/// whether it states the expectation, the R formal's name and the Rust
/// type as written.
pub struct ArgContext {
    /// `'<p>' must be <expected>` when the type has an R-facing
    /// expectation, `failed to convert parameter '<p>' to <type>` otherwise.
    pub prefix: String,
    /// Whether `prefix` states the expectation.
    pub expected_known: bool,
    /// The R formal's name.
    pub r_name: String,
    /// The Rust type as written in the signature.
    pub rust_type: String,
}

/// The message prefix of a failed conversion of `r_name`, whose Rust type
/// is written `rust_type`.
pub open spec fn conversion_prefix(r_name: Seq<char>, rust_type: Seq<char>, expected: Option<Seq<char>>) -> Seq<char> {
    match expected {
        Some(e) => "'"@ + r_name + "' must be "@ + e,
        None => "failed to convert parameter '"@ + r_name + "' to "@ + rust_type,
    }
}

impl ArgContext {
    /// The context of parameter `r_name` of type `ty` (written as
    /// `type_tokens`); `coerced` when the coerce knob applies to it, which
    /// widens the expectation with the R-side gate.
    pub fn new(r_name: &str, ty: &TypeModel, type_tokens: &Vec<TokenTree>, coerced: bool) -> (r: Self)
        ensures
            r.prefix@ == conversion_prefix(
                r_name@,
                render_from(type_tokens@, 0, fresh_render()),
                conversion_expectation_of(*ty, coerced),
            ),
            r.expected_known == conversion_expectation_of(*ty, coerced) is Some,
            r.r_name@ == r_name@,
            r.rust_type@ == render_from(type_tokens@, 0, fresh_render()),
    {
        let expected = conversion_expectation(ty, coerced);
        let rust_type = type_display(type_tokens);
        let prefix = match &expected {
            Some(e) => concat5("'", r_name, "' must be ", e.as_str(), ""),
            None => concat4("failed to convert parameter '", r_name, "' to ", rust_type.as_str()),
        };
        proof {
            reveal_strlit("");
            if expected is Some {
                assert(prefix@ =~= conversion_prefix(
                    r_name@,
                    rust_type@,
                    conversion_expectation_of(*ty, coerced),
                ));
            }
        }
        ArgContext { prefix, expected_known: expected.is_some(), r_name: owned(r_name), rust_type }
    }

    /// The context of the length check of an `[T; n]` selection: the prefix
    /// `'<p>' must be of length <n>`, which states the expectation.
    pub fn with_length(&self, n: usize) -> (r: Self)
        ensures
            r.prefix@ == "'"@ + self.r_name@ + "' must be of length "@ + decimal(n as nat),
            r.expected_known,
            r.r_name@ == self.r_name@,
            r.rust_type@ == self.rust_type@,
    {
        let mut prefix = concat3("'", self.r_name.as_str(), "' must be of length ");
        push_decimal(&mut prefix, n);
        ArgContext {
            prefix,
            expected_known: true,
            r_name: owned(self.r_name.as_str()),
            rust_type: owned(self.rust_type.as_str()),
        }
    }
}

// ---------------------------------------------------------------------------
// Laws
// ---------------------------------------------------------------------------

/// Each knob gets its way where nothing earlier decides: a `&str` borrows
/// R's string on the main-thread path and goes through an owned `String`
/// elsewhere; a `&[T]` not chosen by `match_arg` + `several_ok` is a
/// slice; on a by-value parameter, strict mode takes a type that has a
/// checked conversion, a coerced parameter of a coercing type is converted
/// by its coercion, and without any knob the conversion is the plain one.
pub proof fn lemma_knobs_take_effect(
    b: RustConversionBuilder,
    ident: Seq<char>,
    ty: TypeModel,
    zero_copy_str: bool,
    strict_available: bool,
)
    ensures
        ({
            let p = plan_of(b, Some(ident), ty, zero_copy_str, strict_available);
            let name = ident_text(ident);
            let by_value = !(ty is Reference) && !is_unit(ty) && call_marker_of(ty) is None;
            let no_choice = !views(b.match_arg_optional_params@).contains(name) && !views(
                b.match_arg_several_ok_params@,
            ).contains(name);
            &&& (ty matches TypeModel::Reference(_, inner) && is_str_path(*inner)) ==> p == if zero_copy_str {
                ConversionPlan::StrZeroCopy
            } else {
                ConversionPlan::StrOwned
            }
            &&& (ty matches TypeModel::Reference(_, inner) && *inner is Slice && !views(
                b.match_arg_several_ok_params@,
            ).contains(name)) ==> p == ConversionPlan::Slice
            &&& by_value && b.strict && strict_available ==> p == ConversionPlan::Strict
            &&& by_value && !(b.strict && strict_available) && no_choice && coerces(b, name) && coercion_of(ty) is Some
                ==> p == ConversionPlan::Coerced(coercion_of(ty)->Some_0)
            &&& by_value && !(b.strict && strict_available) && no_choice && !coerces(b, name) ==> p == ConversionPlan::Plain
        }),
{
    reveal_strlit("str");
    reveal_strlit("Dots");
    assert("str"@.len() != "Dots"@.len());
}

/// Each special conversion is chosen only by its own knob: coercion for a
/// coerced parameter, strict conversion in strict mode and never for a
/// reference, the `match_arg` conversions for parameters named in their
/// lists, and a zero-copy `&str` only on the main-thread path.
pub proof fn lemma_plan_follows_knobs(
    b: RustConversionBuilder,
    ident: Seq<char>,
    ty: TypeModel,
    zero_copy_str: bool,
    strict_available: bool,
)
    ensures
        ({
            let p = plan_of(b, Some(ident), ty, zero_copy_str, strict_available);
            let name = ident_text(ident);
            &&& p is Coerced ==> coerces(b, name)
            &&& p == ConversionPlan::Strict ==> b.strict && strict_available && !(ty is Reference)
            &&& (p is Choices || p is BorrowedChoices) ==> views(b.match_arg_several_ok_params@).contains(name)
            &&& p == ConversionPlan::OptionalChoice ==> views(b.match_arg_optional_params@).contains(name)
            &&& p == ConversionPlan::StrZeroCopy ==> zero_copy_str
            &&& p == ConversionPlan::StrOwned ==> !zero_copy_str
        }),
{
}

} // verus!
