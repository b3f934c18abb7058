//! `#[derive(RConvert)]`: forward R↔Rust conversions from a newtype to its
//! inner type, in the directions that `#[rconvert(...)]` leaves enabled.
//!
//! `#[rconvert(into = false)]` emits `TryFromSexp` only,
//! `#[rconvert(from = false)]` emits `IntoR` only; `forward` is an explicit
//! spelling of the default (both).
use vstd::prelude::*;
use crate::newtype_derive::{newtype_of, DataShape, Newtype, NewtypeError};

verus! {

/// One option inside `#[rconvert(...)]`, in the order written (over all
/// such attributes).
pub enum RConvertOption {
    /// `forward`.
    Forward,
    /// `from = <bool>`: the value, or the parse error of what follows
    /// `from`.
    From(Result<bool, String>),
    /// `into = <bool>`: the value, or the parse error of what follows
    /// `into`.
    Into(Result<bool, String>),
    /// Any other option.
    Unknown,
}

/// Which conversion directions the derive emits.
#[derive(Clone, Copy, Debug, PartialEq, Eq, Structural)]
pub struct RConvertOpts {
    /// `TryFromSexp` (R to Rust).
    pub emit_from: bool,
    /// `IntoR` (Rust to R).
    pub emit_into: bool,
}

/// Why the options are refused.
#[derive(Debug)]
pub enum RConvertError {
    /// What follows `from` / `into` is not `= <bool>`, with the parse error.
    BadValue(String),
    /// An option that is not `forward`, `from` or `into`.
    UnknownOption,
    /// Both directions disabled.
    NothingEnabled,
}

/// Whether an option is refused.
pub open spec fn option_refused(o: RConvertOption) -> bool {
    match o {
        RConvertOption::Forward => false,
        RConvertOption::From(v) => v is Err,
        RConvertOption::Into(v) => v is Err,
        RConvertOption::Unknown => true,
    }
}

/// The index of the first refused option at or after `i`.
pub open spec fn first_refused(os: Seq<RConvertOption>, i: int) -> Option<int>
    decreases os.len() - i,
{
    if i < 0 || i >= os.len() {
        None
    } else if option_refused(os[i]) {
        Some(i)
    } else {
        first_refused(os, i + 1)
    }
}

/// The directions after the options `os[..n]`: each `from = b` / `into = b`
/// sets its direction, the last one wins; both start enabled.
pub open spec fn directions(os: Seq<RConvertOption>, n: int) -> RConvertOpts
    decreases n,
{
    if n <= 0 || n > os.len() {
        RConvertOpts { emit_from: true, emit_into: true }
    } else {
        let d = directions(os, n - 1);
        match os[n - 1] {
            RConvertOption::From(Ok(b)) => RConvertOpts { emit_from: b, emit_into: d.emit_into },
            RConvertOption::Into(Ok(b)) => RConvertOpts { emit_from: d.emit_from, emit_into: b },
            _ => d,
        }
    }
}

/// Whether `r` is the outcome of the options: the first refused option's
/// error, else the directions unless both are disabled.
pub open spec fn reads_options(os: Seq<RConvertOption>, r: Result<RConvertOpts, RConvertError>) -> bool {
    match first_refused(os, 0) {
        Some(k) => match os[k] {
            RConvertOption::From(Err(m)) => r matches Err(RConvertError::BadValue(x)) && x@ == m@,
            RConvertOption::Into(Err(m)) => r matches Err(RConvertError::BadValue(x)) && x@ == m@,
            _ => r matches Err(RConvertError::UnknownOption),
        },
        None => {
            let d = directions(os, os.len() as int);
            if !d.emit_from && !d.emit_into {
                r matches Err(RConvertError::NothingEnabled)
            } else {
                r == Ok::<_, RConvertError>(d)
            }
        },
    }
}

/// Read the `#[rconvert(...)]` options.
pub fn parse_opts(options: &[RConvertOption]) -> (r: Result<RConvertOpts, RConvertError>)
    ensures
        reads_options(options@, r),
{
    let mut opts = RConvertOpts { emit_from: true, emit_into: true };
    let mut i: usize = 0;
    while i < options.len()
        invariant
            i <= options@.len(),
            first_refused(options@, 0) == first_refused(options@, i as int),
            opts == directions(options@, i as int),
        decreases options@.len() - i,
    {
        match &options[i] {
            RConvertOption::Forward => {},
            RConvertOption::From(v) => match v {
                Ok(b) => {
                    opts.emit_from = *b;
                },
                Err(m) => {
                    return Err(RConvertError::BadValue(m.clone()));
                },
            },
            RConvertOption::Into(v) => match v {
                Ok(b) => {
                    opts.emit_into = *b;
                },
                Err(m) => {
                    return Err(RConvertError::BadValue(m.clone()));
                },
            },
            RConvertOption::Unknown => {
                return Err(RConvertError::UnknownOption);
            },
        }
        i = i + 1;
    }
    if !opts.emit_from && !opts.emit_into {
        return Err(RConvertError::NothingEnabled);
    }
    Ok(opts)
}

impl RConvertError {
    /// The diagnostic reported for this error.
    pub fn message(&self) -> (r: String)
        ensures
            r@ == match *self {
                RConvertError::BadValue(m) => m@,
                RConvertError::UnknownOption =>
                    "unknown #[rconvert] option; expected `forward`, `from = <bool>`, or `into = <bool>`"@,
                RConvertError::NothingEnabled => "#[rconvert]: at least one of `from` / `into` must remain enabled"@,
            },
    {
        match self {
            RConvertError::BadValue(m) => m.clone(),
            RConvertError::UnknownOption => String::from_str(
                "unknown #[rconvert] option; expected `forward`, `from = <bool>`, or `into = <bool>`",
            ),
            RConvertError::NothingEnabled => String::from_str(
                "#[rconvert]: at least one of `from` / `into` must remain enabled",
            ),
        }
    }
}

/// The single field of the newtype `#[derive(RConvert)]` is applied to.
pub fn parse_newtype(shape: &DataShape) -> (r: Result<Newtype, NewtypeError>)
    ensures
        crate::newtype_derive::reads_newtype(*shape, r),
{
    crate::newtype_derive::parse_newtype(shape)
}

/// The diagnostic of `#[derive(RConvert)]` for an item that is not a
/// newtype.
pub fn newtype_error_message(e: NewtypeError) -> (r: &'static str)
    ensures
        r@ == match e {
            NewtypeError::NotAStruct => "#[derive(RConvert)] only works on newtype structs"@,
            NewtypeError::NotOneField => "#[derive(RConvert)] requires a struct with exactly one field"@,
        },
{
    match e {
        NewtypeError::NotAStruct => "#[derive(RConvert)] only works on newtype structs",
        NewtypeError::NotOneField => "#[derive(RConvert)] requires a struct with exactly one field",
    }
}

// ---------------------------------------------------------------------------
// Laws
// ---------------------------------------------------------------------------

proof fn lemma_directions_untouched(os: Seq<RConvertOption>, n: int)
    requires
        0 <= n <= os.len(),
        forall|k: int| 0 <= k < n ==> !(#[trigger] os[k] matches RConvertOption::From(Ok(false))) && !(
        os[k] matches RConvertOption::Into(Ok(false))),
    ensures
        directions(os, n) == (RConvertOpts { emit_from: true, emit_into: true }),
    decreases n,
{
    if n > 0 {
        lemma_directions_untouched(os, n - 1);
    }
}

/// Accepted options always leave at least one direction enabled; options
/// without `from = false` and `into = false` are accepted (when nothing is
/// refused) with both directions enabled.
pub proof fn lemma_accepted_options_enable_a_direction(os: Seq<RConvertOption>, r: Result<RConvertOpts, RConvertError>)
    requires
        reads_options(os, r),
    ensures
        r is Ok ==> r->Ok_0.emit_from || r->Ok_0.emit_into,
        first_refused(os, 0) is None && (forall|k: int|
            0 <= k < os.len() ==> !(#[trigger] os[k] matches RConvertOption::From(Ok(false))) && !(
            os[k] matches RConvertOption::Into(Ok(false)))) ==> r == Ok::<_, RConvertError>(
            RConvertOpts { emit_from: true, emit_into: true },
        ),
{
    if forall|k: int|
        0 <= k < os.len() ==> !(#[trigger] os[k] matches RConvertOption::From(Ok(false))) && !(
        os[k] matches RConvertOption::Into(Ok(false))) {
        lemma_directions_untouched(os, os.len() as int);
    }
}

} // verus!
