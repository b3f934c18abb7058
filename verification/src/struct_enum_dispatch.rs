//! `#[miniextendr]` on a struct or an enum: which derive path it takes.
//!
//! | Syntax | Result |
//! |---|---|
//! | `#[miniextendr]` on a 1-field struct | ALTREP |
//! | `#[miniextendr(externalptr)]` on a 1-field struct | ExternalPtr |
//! | `#[miniextendr(list)]` on a 1-field struct | list conversion |
//! | `#[miniextendr(class = "...", base = "...")]` on a 1-field struct | ALTREP |
//! | `#[miniextendr]` on a multi-field struct | ExternalPtr |
//! | `#[miniextendr(list)]` on a multi-field struct | IntoList + TryFromList + PreferList |
//! | `#[miniextendr(dataframe)]` on a multi-field struct | DataFrameRow + PreferDataFrame |
//! | `#[miniextendr(prefer = "...")]` on a struct | the preferred mode |
//! | `#[miniextendr]` on a fieldless enum | RFactor |
//! | `#[miniextendr(match_arg)]` on a fieldless enum | MatchArg |
use vstd::prelude::*;
use crate::text::{concat3, owned, str_eq};
use crate::util::{attr_positions, path_is};

verus! {

/// One comma-separated entry of the attribute, as `syn::Meta` reads it.
pub enum MetaEntry {
    /// A bare path: its identifier when it is a single identifier.
    Path(Option<String>),
    /// `key = value`: the key's identifier when it is a single identifier,
    /// and the value when it is a string literal.
    NameValue { key: Option<String>, value: Option<String> },
    /// `path(...)`.
    List,
}

/// The options of `#[miniextendr(...)]` on a struct or an enum.
pub struct StructEnumAttrs {
    /// ALTREP class name.
    pub class: Option<String>,
    /// ALTREP base type.
    pub base: Option<String>,
    pub list: bool,
    pub dataframe: bool,
    pub externalptr: bool,
    pub match_arg: bool,
    pub factor: bool,
    /// The preferred conversion (`externalptr`, `list`, `dataframe`,
    /// `native`).
    pub prefer: Option<String>,
}

/// An attribute entry that is refused.
pub enum AttrError {
    /// A bare path that is not a single identifier.
    ExpectedIdentifier,
    /// A bare identifier that is not an option.
    UnknownFlag(String),
    /// `key = "..."` with a key that is not an option.
    UnknownKey(String),
}

/// Whether a bare identifier is a flag option.
pub open spec fn is_flag(id: Seq<char>) -> bool {
    id == "list"@ || id == "dataframe"@ || id == "externalptr"@ || id == "match_arg"@ || id == "factor"@
}

/// Whether a key of `key = "..."` is accepted (`pkg` is accepted and
/// ignored).
pub open spec fn is_value_key(k: Seq<char>) -> bool {
    k == "class"@ || k == "base"@ || k == "prefer"@ || k == "pkg"@
}

/// The key's identifier, or empty.
pub open spec fn key_text(key: Option<String>) -> Seq<char> {
    match key {
        Some(k) => k@,
        None => Seq::empty(),
    }
}

/// The first refused entry among `es[i..]`.
pub open spec fn first_bad_entry(es: Seq<MetaEntry>, i: int) -> Option<int>
    decreases es.len() - i,
{
    if i < 0 || i >= es.len() {
        None
    } else if entry_refused(es[i]) {
        Some(i)
    } else {
        first_bad_entry(es, i + 1)
    }
}

/// Whether an entry is refused.
pub open spec fn entry_refused(e: MetaEntry) -> bool {
    match e {
        MetaEntry::Path(None) => true,
        MetaEntry::Path(Some(id)) => !is_flag(id@),
        MetaEntry::NameValue { key, value } => value is Some && !is_value_key(key_text(key)),
        MetaEntry::List => false,
    }
}

/// Whether `e` is the error for the refused entry `m`.
pub open spec fn reports_entry(m: MetaEntry, e: AttrError) -> bool {
    match m {
        MetaEntry::Path(None) => e is ExpectedIdentifier,
        MetaEntry::Path(Some(id)) => e matches AttrError::UnknownFlag(x) && x@ == id@,
        MetaEntry::NameValue { key, value: _ } => e matches AttrError::UnknownKey(x) && x@ == key_text(key),
        MetaEntry::List => false,
    }
}

/// Whether some entry among `es[..n]` is the bare flag `name`.
pub open spec fn flag_set(es: Seq<MetaEntry>, n: int, name: Seq<char>) -> bool {
    exists|i: int| 0 <= i < n && (#[trigger] es[i] matches MetaEntry::Path(Some(id)) && id@ == name)
}

/// The value of the last `key = "..."` entry with that key among `es[..n]`.
pub open spec fn last_value(es: Seq<MetaEntry>, n: int, key: Seq<char>) -> Option<Seq<char>>
    decreases n,
{
    if n <= 0 || n > es.len() {
        None
    } else {
        match es[n - 1] {
            MetaEntry::NameValue { key: Some(k), value: Some(v) } => if k@ == key {
                Some(v@)
            } else {
                last_value(es, n - 1, key)
            },
            _ => last_value(es, n - 1, key),
        }
    }
}

/// The view of an optional string.
pub open spec fn opt_view(s: Option<String>) -> Option<Seq<char>> {
    match s {
        Some(x) => Some(x@),
        None => None,
    }
}

/// Whether `a` holds exactly the options of the entries `es[..n]`.
pub open spec fn attrs_of(es: Seq<MetaEntry>, n: int, a: StructEnumAttrs) -> bool {
    &&& a.list == flag_set(es, n, "list"@)
    &&& a.dataframe == flag_set(es, n, "dataframe"@)
    &&& a.externalptr == flag_set(es, n, "externalptr"@)
    &&& a.match_arg == flag_set(es, n, "match_arg"@)
    &&& a.factor == flag_set(es, n, "factor"@)
    &&& opt_view(a.class) == last_value(es, n, "class"@)
    &&& opt_view(a.base) == last_value(es, n, "base"@)
    &&& opt_view(a.prefer) == last_value(es, n, "prefer"@)
}

proof fn lemma_flag_step(es: Seq<MetaEntry>, n: int, name: Seq<char>)
    requires
        0 <= n < es.len(),
    ensures
        flag_set(es, n + 1, name) == (flag_set(es, n, name) || (es[n] matches MetaEntry::Path(Some(id)) && id@
            == name)),
{
    if flag_set(es, n + 1, name) && !(es[n] matches MetaEntry::Path(Some(id)) && id@ == name) {
        let w = choose|j: int| 0 <= j < n + 1 && (#[trigger] es[j] matches MetaEntry::Path(Some(id)) && id@ == name);
        assert(w < n);
    }
    if es[n] matches MetaEntry::Path(Some(id)) && id@ == name {
        assert(0 <= n < n + 1 && (es[n] matches MetaEntry::Path(Some(id)) && id@ == name));
    }
}

proof fn lemma_option_names_distinct()
    ensures
        "list"@ != "dataframe"@,
        "list"@ != "externalptr"@,
        "list"@ != "match_arg"@,
        "list"@ != "factor"@,
        "dataframe"@ != "externalptr"@,
        "dataframe"@ != "match_arg"@,
        "dataframe"@ != "factor"@,
        "externalptr"@ != "match_arg"@,
        "externalptr"@ != "factor"@,
        "match_arg"@ != "factor"@,
        "class"@ != "base"@,
        "class"@ != "prefer"@,
        "base"@ != "prefer"@,
        "pkg"@ != "class"@,
        "pkg"@ != "base"@,
        "pkg"@ != "prefer"@,
        "class"@.len() > 0,
        "base"@.len() > 0,
        "prefer"@.len() > 0,
        "pkg"@.len() > 0,
{
    reveal_strlit("list");
    reveal_strlit("dataframe");
    reveal_strlit("externalptr");
    reveal_strlit("match_arg");
    reveal_strlit("factor");
    reveal_strlit("class");
    reveal_strlit("base");
    reveal_strlit("prefer");
    assert("list"@.len() != "dataframe"@.len());
    assert("list"@.len() != "externalptr"@.len());
    assert("list"@.len() != "match_arg"@.len());
    assert("list"@.len() != "factor"@.len());
    assert("dataframe"@.len() != "externalptr"@.len());
    assert("dataframe"@[0] != "match_arg"@[0]);
    assert("dataframe"@.len() != "factor"@.len());
    assert("externalptr"@.len() != "match_arg"@.len());
    assert("externalptr"@.len() != "factor"@.len());
    assert("match_arg"@.len() != "factor"@.len());
    assert("class"@.len() != "base"@.len());
    assert("class"@.len() != "prefer"@.len());
    assert("base"@.len() != "prefer"@.len());
    reveal_strlit("pkg");
    assert("pkg"@.len() != "class"@.len());
    assert("pkg"@.len() != "base"@.len());
    assert("pkg"@.len() != "prefer"@.len());
}

/// Parse the entries of `#[miniextendr(...)]` on a struct or an enum:
/// the first refused entry is reported; otherwise every flag that occurs is
/// set and each of `class`, `base` and `prefer` takes its last string value.
/// Entries `key = <not a string>` and `path(...)` are ignored.
pub fn parse_attrs(metas: &[MetaEntry]) -> (r: Result<StructEnumAttrs, AttrError>)
    ensures
        match first_bad_entry(metas@, 0) {
            Some(k) => r matches Err(e) && reports_entry(metas@[k], e),
            None => r matches Ok(a) && attrs_of(metas@, metas@.len() as int, a),
        },
{
    let mut attrs = StructEnumAttrs {
        class: None,
        base: None,
        list: false,
        dataframe: false,
        externalptr: false,
        match_arg: false,
        factor: false,
        prefer: None,
    };
    let mut i: usize = 0;
    while i < metas.len()
        invariant
            i <= metas@.len(),
            first_bad_entry(metas@, 0) == first_bad_entry(metas@, i as int),
            attrs_of(metas@, i as int, attrs),
        decreases metas@.len() - i,
    {
        proof {
            lemma_option_names_distinct();
        }
        match &metas[i] {
            MetaEntry::Path(None) => {
                return Err(AttrError::ExpectedIdentifier);
            },
            MetaEntry::Path(Some(id)) => {
                let s = id.as_str();
                if str_eq(s, "list") {
                    attrs.list = true;
                } else if str_eq(s, "dataframe") {
                    attrs.dataframe = true;
                } else if str_eq(s, "externalptr") {
                    attrs.externalptr = true;
                } else if str_eq(s, "match_arg") {
                    attrs.match_arg = true;
                } else if str_eq(s, "factor") {
                    attrs.factor = true;
                } else {
                    return Err(AttrError::UnknownFlag(id.clone()));
                }
            },
            MetaEntry::NameValue { key, value } => {
                let k = match key {
                    Some(k) => k.as_str(),
                    None => "",
                };
                proof {
                    assert(k@ == key_text(*key)) by {
                        if key is None {
                            reveal_strlit("");
                            assert(""@ =~= Seq::<char>::empty());
                        }
                    }
                }
                match value {
                    Some(v) => {
                        if str_eq(k, "class") {
                            attrs.class = Some(v.clone());
                        } else if str_eq(k, "base") {
                            attrs.base = Some(v.clone());
                        } else if str_eq(k, "prefer") {
                            attrs.prefer = Some(v.clone());
                        } else if str_eq(k, "pkg") {
                        } else {
                            return Err(AttrError::UnknownKey(owned(k)));
                        }
                    },
                    None => {},
                }
            },
            MetaEntry::List => {},
        }
        proof {
            let n = i as int;
            lemma_flag_step(metas@, n, "list"@);
            lemma_flag_step(metas@, n, "dataframe"@);
            lemma_flag_step(metas@, n, "externalptr"@);
            lemma_flag_step(metas@, n, "match_arg"@);
            lemma_flag_step(metas@, n, "factor"@);
        }
        i = i + 1;
    }
    Ok(attrs)
}

// ---------------------------------------------------------------------------
// Dispatch
// ---------------------------------------------------------------------------

/// The derive path of a struct.
#[derive(Clone, Copy, Debug, PartialEq, Eq, Structural)]
pub enum StructDispatch {
    /// The ALTREP expansion.
    Altrep,
    /// IntoList + TryFromList + PreferList.
    List,
    /// IntoList + DataFrameRow, and `IntoR` on the companion data frame
    /// type.
    DataFrame,
    /// ExternalPtr, with the native preference marker when
    /// `prefer = "native"`.
    ExternalPtr { native: bool },
}

/// The derive path of an enum.
#[derive(Clone, Copy, Debug, PartialEq, Eq, Structural)]
pub enum EnumDispatch {
    MatchArg,
    Factor,
}

/// Why a struct or an enum is refused.
pub enum DispatchError {
    /// `class` / `base` together with a mode.
    AltrepWithMode,
    /// More than one mode.
    ConflictingModes,
    /// A `prefer` value that is not a mode.
    UnknownPrefer(String),
    /// An enum with a variant that has fields.
    EnumNotFieldless,
}

/// Whether `prefer` is `p`.
pub open spec fn prefers(a: StructEnumAttrs, p: Seq<char>) -> bool {
    opt_view(a.prefer) == Some(p)
}

/// Whether an explicit mode option is set.
pub open spec fn has_mode(a: StructEnumAttrs) -> bool {
    a.list || a.dataframe || a.externalptr
}

/// The list mode, explicit or preferred (a preference counts only
/// without an explicit mode).
pub open spec fn eff_list(a: StructEnumAttrs) -> bool {
    a.list || (!has_mode(a) && prefers(a, "list"@))
}

/// The data frame mode, explicit or preferred.
pub open spec fn eff_dataframe(a: StructEnumAttrs) -> bool {
    a.dataframe || (!has_mode(a) && prefers(a, "dataframe"@))
}

/// The external pointer mode, explicit or preferred.
pub open spec fn eff_externalptr(a: StructEnumAttrs) -> bool {
    a.externalptr || (!has_mode(a) && prefers(a, "externalptr"@))
}

/// Whether a `prefer` value is known.
pub open spec fn known_prefer(p: Seq<char>) -> bool {
    p == "externalptr"@ || p == "list"@ || p == "dataframe"@ || p == "native"@
}

/// Whether `r` is the dispatch of a struct with `n_fields` fields: a
/// one-field struct without mode or preference is ALTREP; ALTREP options
/// with a mode, two modes, or an unknown preference are refused; then the
/// list, data frame or (by default) external pointer path.
pub open spec fn struct_dispatch(a: StructEnumAttrs, n_fields: nat, r: Result<StructDispatch, DispatchError>) -> bool {
    let l = eff_list(a);
    let d = eff_dataframe(a);
    let x = eff_externalptr(a);
    let mode = l || d || x;
    if n_fields == 1 && !mode && a.prefer is None {
        r == Ok::<_, DispatchError>(StructDispatch::Altrep)
    } else if (a.class is Some || a.base is Some) && mode {
        r matches Err(DispatchError::AltrepWithMode)
    } else if (l && d) || (l && x) || (d && x) {
        r matches Err(DispatchError::ConflictingModes)
    } else if a.prefer is Some && !known_prefer(a.prefer->Some_0@) {
        r matches Err(DispatchError::UnknownPrefer(p)) && p@ == a.prefer->Some_0@
    } else if l {
        r == Ok::<_, DispatchError>(StructDispatch::List)
    } else if d {
        r == Ok::<_, DispatchError>(StructDispatch::DataFrame)
    } else {
        r == Ok::<_, DispatchError>(StructDispatch::ExternalPtr { native: prefers(a, "native"@) })
    }
}

fn prefers_exec(a: &StructEnumAttrs, p: &str) -> (r: bool)
    ensures
        r == prefers(*a, p@),
{
    match &a.prefer {
        Some(x) => str_eq(x.as_str(), p),
        None => false,
    }
}

/// The derive path of a struct with `n_fields` fields.
pub fn dispatch_struct(attrs: &StructEnumAttrs, n_fields: usize) -> (r: Result<StructDispatch, DispatchError>)
    ensures
        struct_dispatch(*attrs, n_fields as nat, r),
{
    let has_altrep_attrs = attrs.class.is_some() || attrs.base.is_some();
    let has_mode_attr = attrs.list || attrs.dataframe || attrs.externalptr;
    let l = attrs.list || (!has_mode_attr && prefers_exec(attrs, "list"));
    let d = attrs.dataframe || (!has_mode_attr && prefers_exec(attrs, "dataframe"));
    let x = attrs.externalptr || (!has_mode_attr && prefers_exec(attrs, "externalptr"));
    let mode = l || d || x;
    if n_fields == 1 && !mode && attrs.prefer.is_none() {
        return Ok(StructDispatch::Altrep);
    }
    if has_altrep_attrs && mode {
        return Err(DispatchError::AltrepWithMode);
    }
    if (l && d) || (l && x) || (d && x) {
        return Err(DispatchError::ConflictingModes);
    }
    match &attrs.prefer {
        Some(p) => {
            let s = p.as_str();
            if !(str_eq(s, "externalptr") || str_eq(s, "list") || str_eq(s, "dataframe") || str_eq(s, "native")) {
                return Err(DispatchError::UnknownPrefer(p.clone()));
            }
        },
        None => {},
    }
    if l {
        Ok(StructDispatch::List)
    } else if d {
        Ok(StructDispatch::DataFrame)
    } else {
        Ok(StructDispatch::ExternalPtr { native: prefers_exec(attrs, "native") })
    }
}

/// The derive path of an enum: only fieldless enums are accepted;
/// `match_arg` gives MatchArg, anything else an R factor.
pub fn dispatch_enum(attrs: &StructEnumAttrs, fieldless: bool) -> (r: Result<EnumDispatch, DispatchError>)
    ensures
        !fieldless ==> r matches Err(DispatchError::EnumNotFieldless),
        fieldless ==> r == Ok::<_, DispatchError>(
            if attrs.match_arg {
                EnumDispatch::MatchArg
            } else {
                EnumDispatch::Factor
            },
        ),
{
    if !fieldless {
        return Err(DispatchError::EnumNotFieldless);
    }
    if attrs.match_arg {
        Ok(EnumDispatch::MatchArg)
    } else {
        Ok(EnumDispatch::Factor)
    }
}

// ---------------------------------------------------------------------------
// Messages and item shapes
// ---------------------------------------------------------------------------

impl AttrError {
    /// The diagnostic reported for this error.
    pub fn message(&self) -> (r: String)
        ensures
            r@ == match *self {
                AttrError::ExpectedIdentifier => "expected identifier"@,
                AttrError::UnknownFlag(id) => "unknown #[miniextendr] attribute `"@ + id@
                    + "`; expected one of: list, dataframe, externalptr, match_arg, factor, prefer, class, base"@,
                AttrError::UnknownKey(k) => "unknown #[miniextendr] attribute `"@ + k@
                    + "`; expected one of: class, base, prefer"@,
            },
    {
        match self {
            AttrError::ExpectedIdentifier => owned("expected identifier"),
            AttrError::UnknownFlag(id) => concat3(
                "unknown #[miniextendr] attribute `",
                id.as_str(),
                "`; expected one of: list, dataframe, externalptr, match_arg, factor, prefer, class, base",
            ),
            AttrError::UnknownKey(k) => concat3(
                "unknown #[miniextendr] attribute `",
                k.as_str(),
                "`; expected one of: class, base, prefer",
            ),
        }
    }
}

impl DispatchError {
    /// The diagnostic reported for this error.
    pub fn message(&self) -> (r: String)
        ensures
            r@ == match *self {
                DispatchError::AltrepWithMode =>
                    "cannot combine ALTREP attributes (class, base) with mode attributes (list, dataframe, externalptr)"@,
                DispatchError::ConflictingModes => "only one of `list`, `dataframe`, `externalptr` can be specified"@,
                DispatchError::UnknownPrefer(p) => "unknown prefer value `"@ + p@
                    + "`; expected one of: externalptr, list, dataframe, native"@,
                DispatchError::EnumNotFieldless =>
                    "#[miniextendr] on enums requires all variants to be fieldless (C-style)"@,
            },
    {
        match self {
            DispatchError::AltrepWithMode => owned(
                "cannot combine ALTREP attributes (class, base) with mode attributes (list, dataframe, externalptr)",
            ),
            DispatchError::ConflictingModes => owned("only one of `list`, `dataframe`, `externalptr` can be specified"),
            DispatchError::UnknownPrefer(p) => concat3(
                "unknown prefer value `",
                p.as_str(),
                "`; expected one of: externalptr, list, dataframe, native",
            ),
            DispatchError::EnumNotFieldless => owned(
                "#[miniextendr] on enums requires all variants to be fieldless (C-style)",
            ),
        }
    }
}

/// The fields of a struct.
#[derive(Clone, Copy, Debug, PartialEq, Eq, Structural)]
pub enum StructFields {
    /// `{ a: A, b: B }`, with their number.
    Named(usize),
    /// `(A, B)`, with their number.
    Unnamed(usize),
    /// No fields.
    Unit,
}

/// The number of fields of a struct.
pub fn field_count(fields: StructFields) -> (r: usize)
    ensures
        r == match fields {
            StructFields::Named(n) => n,
            StructFields::Unnamed(n) => n,
            StructFields::Unit => 0,
        },
{
    match fields {
        StructFields::Named(n) => n,
        StructFields::Unnamed(n) => n,
        StructFields::Unit => 0,
    }
}

/// Whether every variant of an enum is a unit variant (given, per variant,
/// whether it has no fields).
pub fn is_fieldless_enum(variant_is_unit: &[bool]) -> (r: bool)
    ensures
        r == forall|i: int| 0 <= i < variant_is_unit@.len() ==> #[trigger] variant_is_unit@[i],
{
    let mut i: usize = 0;
    while i < variant_is_unit.len()
        invariant
            i <= variant_is_unit@.len(),
            forall|j: int| 0 <= j < i ==> #[trigger] variant_is_unit@[j],
        decreases variant_is_unit@.len() - i,
    {
        if !variant_is_unit[i] {
            return false;
        }
        i = i + 1;
    }
    true
}

/// The positions of the attributes to keep for the derive helpers: all but
/// `#[miniextendr(..)]` (given, per attribute, its path when it is a single
/// identifier).
pub fn strip_miniextendr_attrs(attr_paths: &[Option<String>]) -> (r: Vec<usize>)
    ensures
        forall|k: int, l: int| 0 <= k < l < r@.len() ==> r@[k] < r@[l],
        forall|k: int| 0 <= k < r@.len() ==> r@[k] < attr_paths@.len(),
        forall|i: int|
            0 <= i < attr_paths@.len() ==> (r@.contains(i as usize) <==> !path_is(
                #[trigger] attr_paths@[i],
                "miniextendr"@,
            )),
{
    attr_positions(attr_paths, "miniextendr", false)
}

// ---------------------------------------------------------------------------
// Laws
// ---------------------------------------------------------------------------

/// An explicit mode wins over `prefer`: with exactly one of `list`,
/// `dataframe`, `externalptr`, no ALTREP options and a known preference
/// (or none), the struct takes that mode's path, whatever its number of
/// fields.
pub proof fn lemma_explicit_mode_wins(a: StructEnumAttrs, n_fields: nat, r: Result<StructDispatch, DispatchError>)
    requires
        struct_dispatch(a, n_fields, r),
        (a.list && !a.dataframe && !a.externalptr) || (!a.list && a.dataframe && !a.externalptr) || (!a.list
            && !a.dataframe && a.externalptr),
        a.class is None,
        a.base is None,
        a.prefer is None || known_prefer(a.prefer->Some_0@),
    ensures
        a.list ==> r == Ok::<_, DispatchError>(StructDispatch::List),
        a.dataframe ==> r == Ok::<_, DispatchError>(StructDispatch::DataFrame),
        a.externalptr ==> r == Ok::<_, DispatchError>(StructDispatch::ExternalPtr { native: prefers(a, "native"@) }),
{
}

/// Without options, a one-field struct is ALTREP and any other struct an
/// external pointer; `class` / `base` alone keep a one-field struct ALTREP.
pub proof fn lemma_default_paths(a: StructEnumAttrs, n_fields: nat, r: Result<StructDispatch, DispatchError>)
    requires
        struct_dispatch(a, n_fields, r),
        !a.list,
        !a.dataframe,
        !a.externalptr,
        a.prefer is None,
    ensures
        n_fields == 1 ==> r == Ok::<_, DispatchError>(StructDispatch::Altrep),
        n_fields != 1 ==> r == Ok::<_, DispatchError>(StructDispatch::ExternalPtr { native: false }),
{
}

} // verus!
