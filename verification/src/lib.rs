//! Verified core of the miniextendr procedural macros: the logic that turns
//! the user's Rust items into R wrapper source and roxygen2 documentation,
//! and that plans the generated C wrappers: type inspection, argument checks
//! and conversions, return handling, the `r!` grammar, trait, impl and
//! module declarations, and the attributes that steer them.
use vstd::prelude::*;

pub mod text;
pub mod naming;
pub mod types;
pub mod r_wrapper_builder;
pub mod roxygen;
pub mod r_preconditions;
pub mod r_class_formatter;
pub mod return_wrap;
pub mod s7_conversion;
pub mod rust_conversion_builder;
pub mod type_inspect;
pub mod return_type_analysis;
pub mod tokens;
pub mod r_macro;
pub mod miniextendr_trait;
pub mod miniextendr_impl_trait;
pub mod miniextendr_module;
pub mod struct_enum_dispatch;
pub mod newtype_derive;
pub mod rconvert_derive;
pub mod util;
pub mod typed_external_macro;
pub mod trait_r_wrappers;

verus! {
} // verus!
