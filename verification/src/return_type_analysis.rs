//! What a function's return type asks of its C wrapper: whether it returns
//! an R object directly (which keeps the call on the main thread), whether
//! the R result is invisible, how the Rust value becomes an R value and what
//! runs after the call (unwrapping an `Option` or `Result`).
use vstd::prelude::*;
use crate::type_inspect::{is_sexp_type, second_type_argument};
use crate::types::{first_type_arg, first_type_argument, is_unit, is_unit_type, last_ident, last_segment, last_segment_of, nth_type_arg, TypeModel};
use crate::text::str_eq;

verus! {

/// How a plain return value is handed to R.
#[derive(Clone, Copy, Debug, PartialEq, Eq, Structural)]
pub enum ReturnPref {
    /// The value's own conversion.
    Auto,
    /// As an R list.
    List,
    /// As an external pointer.
    ExternalPtr,
    /// As the native R vector.
    Native,
}

/// How the Rust value becomes the wrapper's R value.
#[derive(Clone, Copy, Debug, PartialEq, Eq, Structural)]
pub enum ReturnConversion {
    /// `NULL`.
    Nil,
    /// The value, already an R object.
    Value,
    /// An `Option<SEXP>`: the object, or `NULL` for `None`.
    OptionalSexp,
    /// The value's conversion to R, under the given preference.
    IntoR(ReturnPref),
}

/// What runs after the Rust call, before the conversion.
#[derive(Clone, Copy, Debug, PartialEq, Eq, Structural)]
pub enum PostCall {
    /// A `None` panics (`Option<()>`).
    PanicOnNone,
    /// An `Err(())` becomes the error that converts to `NULL`.
    NullOnErr,
    /// An `Err` panics (`Result<(), E>`).
    PanicOnErr,
    /// The `Ok` value is taken out, an `Err` panics.
    UnwrapOrPanic,
}

/// The analysis of a return type.
#[derive(Clone, Copy, Debug, PartialEq, Eq, Structural)]
pub struct ReturnTypeAnalysis {
    /// Whether the function returns an R object (`SEXP`) directly.
    pub returns_sexp: bool,
    /// Whether the R function returns invisibly.
    pub is_invisible: bool,
    /// How the value becomes an R value.
    pub conversion: ReturnConversion,
    /// What runs after the call.
    pub post_call: Option<PostCall>,
}

/// Whether an optional type argument is `()`.
pub open spec fn unit_arg(t: Option<TypeModel>) -> bool {
    match t {
        Some(x) => is_unit(x),
        None => false,
    }
}

/// Whether an optional type argument is `SEXP`.
pub open spec fn sexp_arg(t: Option<TypeModel>) -> bool {
    match t {
        Some(x) => last_ident(x) == Some("SEXP"@),
        None => false,
    }
}

/// The analysis of `Option<T>`: `Option<()>` is invisible and panics on
/// `None`; `Option<SEXP>` returns the object or `NULL`; any other `T`
/// converts as a whole.
pub open spec fn option_analysis(inner: Option<TypeModel>) -> ReturnTypeAnalysis {
    if unit_arg(inner) {
        ReturnTypeAnalysis {
            returns_sexp: false,
            is_invisible: true,
            conversion: ReturnConversion::Nil,
            post_call: Some(PostCall::PanicOnNone),
        }
    } else if sexp_arg(inner) {
        ReturnTypeAnalysis {
            returns_sexp: true,
            is_invisible: false,
            conversion: ReturnConversion::OptionalSexp,
            post_call: None,
        }
    } else {
        ReturnTypeAnalysis {
            returns_sexp: false,
            is_invisible: false,
            conversion: ReturnConversion::IntoR(ReturnPref::Auto),
            post_call: None,
        }
    }
}

/// The analysis of `Result<T, E>`: `E = ()` returns `NULL` on `Err`
/// (`Result<(), ()>` is invisible `NULL`); with `unwrap_in_r` the `Result`
/// goes to R as it is; otherwise an `Err` panics, `Result<(), E>` is
/// invisible, and an `Ok(SEXP)` is returned as the object.
pub open spec fn result_analysis(ok: Option<TypeModel>, err: Option<TypeModel>, unwrap_in_r: bool) -> ReturnTypeAnalysis {
    let ok_unit = unit_arg(ok);
    let ok_sexp = sexp_arg(ok);
    if unit_arg(err) {
        if ok_unit {
            ReturnTypeAnalysis {
                returns_sexp: false,
                is_invisible: true,
                conversion: ReturnConversion::Nil,
                post_call: None,
            }
        } else {
            ReturnTypeAnalysis {
                returns_sexp: ok_sexp,
                is_invisible: false,
                conversion: ReturnConversion::IntoR(ReturnPref::Auto),
                post_call: Some(PostCall::NullOnErr),
            }
        }
    } else if unwrap_in_r {
        ReturnTypeAnalysis {
            returns_sexp: ok_sexp,
            is_invisible: false,
            conversion: ReturnConversion::IntoR(ReturnPref::Auto),
            post_call: None,
        }
    } else if ok_unit {
        ReturnTypeAnalysis {
            returns_sexp: false,
            is_invisible: true,
            conversion: ReturnConversion::Nil,
            post_call: Some(PostCall::PanicOnErr),
        }
    } else {
        ReturnTypeAnalysis {
            returns_sexp: ok_sexp,
            is_invisible: false,
            conversion: if ok_sexp {
                ReturnConversion::Value
            } else {
                ReturnConversion::IntoR(ReturnPref::Auto)
            },
            post_call: Some(PostCall::UnwrapOrPanic),
        }
    }
}

/// The analysis of a return type (`None` when the function declares none).
pub open spec fn return_analysis(output: Option<TypeModel>, pref: ReturnPref, unwrap_in_r: bool) -> ReturnTypeAnalysis {
    match output {
        None => ReturnTypeAnalysis {
            returns_sexp: false,
            is_invisible: true,
            conversion: ReturnConversion::Nil,
            post_call: None,
        },
        Some(ty) => if is_unit(ty) {
            ReturnTypeAnalysis {
                returns_sexp: false,
                is_invisible: true,
                conversion: ReturnConversion::Nil,
                post_call: None,
            }
        } else if last_ident(ty) == Some("SEXP"@) {
            ReturnTypeAnalysis {
                returns_sexp: true,
                is_invisible: false,
                conversion: ReturnConversion::Value,
                post_call: None,
            }
        } else if last_ident(ty) == Some("Option"@) {
            option_analysis(first_type_arg(last_segment(ty)->Some_0))
        } else if last_ident(ty) == Some("Result"@) {
            result_analysis(
                first_type_arg(last_segment(ty)->Some_0),
                nth_type_arg(last_segment(ty)->Some_0, 1),
                unwrap_in_r,
            )
        } else {
            ReturnTypeAnalysis {
                returns_sexp: false,
                is_invisible: false,
                conversion: ReturnConversion::IntoR(pref),
                post_call: None,
            }
        },
    }
}

fn is_unit_arg(t: Option<&TypeModel>) -> (r: bool)
    ensures
        r == unit_arg(
            match t {
                Some(x) => Some(*x),
                None => None,
            },
        ),
{
    match t {
        Some(x) => is_unit_type(x),
        None => false,
    }
}

fn is_sexp_arg(t: Option<&TypeModel>) -> (r: bool)
    ensures
        r == sexp_arg(
            match t {
                Some(x) => Some(*x),
                None => None,
            },
        ),
{
    match t {
        Some(x) => is_sexp_type(x),
        None => false,
    }
}

/// Analyze a function's return type (`None` when it declares none).
pub fn analyze_return_type(output: Option<&TypeModel>, return_pref: ReturnPref, unwrap_in_r: bool) -> (r:
    ReturnTypeAnalysis)
    ensures
        r == return_analysis(
            match output {
                Some(t) => Some(*t),
                None => None,
            },
            return_pref,
            unwrap_in_r,
        ),
{
    let nil = ReturnTypeAnalysis {
        returns_sexp: false,
        is_invisible: true,
        conversion: ReturnConversion::Nil,
        post_call: None,
    };
    let ty = match output {
        None => return nil,
        Some(t) => t,
    };
    if is_unit_type(ty) {
        return nil;
    }
    if is_sexp_type(ty) {
        return ReturnTypeAnalysis {
            returns_sexp: true,
            is_invisible: false,
            conversion: ReturnConversion::Value,
            post_call: None,
        };
    }
    match last_segment_of(ty) {
        Some(seg) => {
            if str_eq(seg.ident.as_str(), "Option") {
                let inner = first_type_argument(seg);
                let unit_inner = is_unit_arg(inner);
                let sexp_inner = is_sexp_arg(inner);
                return if unit_inner {
                    ReturnTypeAnalysis {
                        returns_sexp: false,
                        is_invisible: true,
                        conversion: ReturnConversion::Nil,
                        post_call: Some(PostCall::PanicOnNone),
                    }
                } else if sexp_inner {
                    ReturnTypeAnalysis {
                        returns_sexp: true,
                        is_invisible: false,
                        conversion: ReturnConversion::OptionalSexp,
                        post_call: None,
                    }
                } else {
                    ReturnTypeAnalysis {
                        returns_sexp: false,
                        is_invisible: false,
                        conversion: ReturnConversion::IntoR(ReturnPref::Auto),
                        post_call: None,
                    }
                };
            }
            if str_eq(seg.ident.as_str(), "Result") {
                let ok = first_type_argument(seg);
                let err = second_type_argument(seg);
                let ok_unit = is_unit_arg(ok);
                let ok_sexp = is_sexp_arg(ok);
                let err_unit = is_unit_arg(err);
                return if err_unit {
                    if ok_unit {
                        nil
                    } else {
                        ReturnTypeAnalysis {
                            returns_sexp: ok_sexp,
                            is_invisible: false,
                            conversion: ReturnConversion::IntoR(ReturnPref::Auto),
                            post_call: Some(PostCall::NullOnErr),
                        }
                    }
                } else if unwrap_in_r {
                    ReturnTypeAnalysis {
                        returns_sexp: ok_sexp,
                        is_invisible: false,
                        conversion: ReturnConversion::IntoR(ReturnPref::Auto),
                        post_call: None,
                    }
                } else if ok_unit {
                    ReturnTypeAnalysis {
                        returns_sexp: false,
                        is_invisible: true,
                        conversion: ReturnConversion::Nil,
                        post_call: Some(PostCall::PanicOnErr),
                    }
                } else {
                    ReturnTypeAnalysis {
                        returns_sexp: ok_sexp,
                        is_invisible: false,
                        conversion: if ok_sexp {
                            ReturnConversion::Value
                        } else {
                            ReturnConversion::IntoR(ReturnPref::Auto)
                        },
                        post_call: Some(PostCall::UnwrapOrPanic),
                    }
                };
            }
        },
        None => {},
    }
    ReturnTypeAnalysis {
        returns_sexp: false,
        is_invisible: false,
        conversion: ReturnConversion::IntoR(return_pref),
        post_call: None,
    }
}

// ---------------------------------------------------------------------------
// Laws
// ---------------------------------------------------------------------------

/// A result that R gets invisibly is always `NULL` and never an R object
/// handed back as it is; a result handed back as it is is always an R
/// object (`SEXP`), so its call stays on the main thread.
pub proof fn lemma_invisible_results_are_null(output: Option<TypeModel>, pref: ReturnPref, unwrap_in_r: bool)
    ensures
        return_analysis(output, pref, unwrap_in_r).is_invisible ==> return_analysis(output, pref, unwrap_in_r).conversion
            == ReturnConversion::Nil && !return_analysis(output, pref, unwrap_in_r).returns_sexp,
        return_analysis(output, pref, unwrap_in_r).conversion == ReturnConversion::Value ==> return_analysis(
            output,
            pref,
            unwrap_in_r,
        ).returns_sexp,
{
}

} // verus!
