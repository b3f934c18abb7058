//! The entries of a `miniextendr_module! { ... }` body: the names of the
//! constants each entry's generated code lives in, and the assembly of the
//! entries into a module declaration (exactly one `mod <name>;`).
//!
//! The body registers functions (`fn name;`), ALTREP classes
//! (`struct Name;`), impl blocks (`impl Type;`, `impl Type as "label";`),
//! trait impls for cross-package dispatch (`impl Trait for Type;`), vctrs
//! types (`vctrs Type;`) and re-exported submodules (`use name;`).
use vstd::prelude::*;
use crate::naming::r_wrapper_const_name_for;
use crate::text::{
    concat2, concat3, concat4, str_to_uppercase, str_trim_end_char, str_trim_start_char, str_upper,
    trim_end_char, trim_start_char, push_char,
};
use crate::types::{SegmentArgs, TypeModel};

verus! {

/// A `fn name;` entry.
pub struct MiniextendrModuleFunction {
    pub ident: String,
}

impl MiniextendrModuleFunction {
    /// The constant that holds the function's R wrapper source.
    pub fn r_wrapper_const_ident(&self) -> (r: String)
        ensures
            r@ == "R_WRAPPER_"@ + str_upper(self.ident@),
    {
        r_wrapper_const_name_for(self.ident.as_str())
    }
}

/// An `impl Type;` or `impl Type as "label";` entry.
pub struct MiniextendrModuleImpl {
    pub ident: String,
    /// The label that tells several impl blocks of one type apart.
    pub label: Option<String>,
}

impl MiniextendrModuleImpl {
    /// `{TYPE}_CALL_DEFS`, or `{TYPE}_{LABEL}_CALL_DEFS` with a label.
    pub fn call_defs_const_ident(&self) -> (r: String)
        ensures
            r@ == match self.label {
                Some(l) => str_upper(self.ident@) + "_"@ + str_upper(l@) + "_CALL_DEFS"@,
                None => str_upper(self.ident@) + "_CALL_DEFS"@,
            },
    {
        let type_upper = str_to_uppercase(self.ident.as_str());
        match &self.label {
            Some(l) => {
                let label_upper = str_to_uppercase(l.as_str());
                concat4(type_upper.as_str(), "_", label_upper.as_str(), "_CALL_DEFS")
            },
            None => concat2(type_upper.as_str(), "_CALL_DEFS"),
        }
    }

    /// `R_WRAPPERS_IMPL_{TYPE}`, or `R_WRAPPERS_IMPL_{TYPE}_{LABEL}` with a
    /// label.
    pub fn r_wrappers_const_ident(&self) -> (r: String)
        ensures
            r@ == match self.label {
                Some(l) => "R_WRAPPERS_IMPL_"@ + str_upper(self.ident@) + "_"@ + str_upper(l@),
                None => "R_WRAPPERS_IMPL_"@ + str_upper(self.ident@),
            },
    {
        let type_upper = str_to_uppercase(self.ident.as_str());
        match &self.label {
            Some(l) => {
                let label_upper = str_to_uppercase(l.as_str());
                concat4("R_WRAPPERS_IMPL_", type_upper.as_str(), "_", label_upper.as_str())
            },
            None => concat2("R_WRAPPERS_IMPL_", type_upper.as_str()),
        }
    }

    /// The label, if any.
    pub fn label(&self) -> (r: Option<&str>)
        ensures
            match r {
                Some(l) => self.label matches Some(x) && l@ == x@,
                None => self.label is None,
            },
    {
        match &self.label {
            Some(l) => Some(l.as_str()),
            None => None,
        }
    }

    /// `RDATA_CALL_DEFS_{TYPE}`: the sidecar call definitions that
    /// `#[derive(ExternalPtr)]` generates.
    pub fn rdata_call_defs_const_ident(&self) -> (r: String)
        ensures
            r@ == "RDATA_CALL_DEFS_"@ + str_upper(self.ident@),
    {
        let type_upper = str_to_uppercase(self.ident.as_str());
        concat2("RDATA_CALL_DEFS_", type_upper.as_str())
    }

    /// `R_WRAPPERS_RDATA_{TYPE}`: the sidecar R wrappers.
    pub fn rdata_r_wrappers_const_ident(&self) -> (r: String)
        ensures
            r@ == "R_WRAPPERS_RDATA_"@ + str_upper(self.ident@),
    {
        let type_upper = str_to_uppercase(self.ident.as_str());
        concat2("R_WRAPPERS_RDATA_", type_upper.as_str())
    }
}

/// A `vctrs Type;` entry.
pub struct MiniextendrModuleVctrs {
    pub ident: String,
}

impl MiniextendrModuleVctrs {
    /// `R_WRAPPERS_VCTRS_{TYPE}`.
    pub fn r_wrappers_const_ident(&self) -> (r: String)
        ensures
            r@ == "R_WRAPPERS_VCTRS_"@ + str_upper(self.ident@),
    {
        let type_upper = str_to_uppercase(self.ident.as_str());
        concat2("R_WRAPPERS_VCTRS_", type_upper.as_str())
    }
}

/// The ALTREP base type of a data trait.
#[derive(Clone, Copy, Debug, PartialEq, Eq, Structural)]
pub enum AltrepBase {
    Integer,
    Real,
    Logical,
    Raw,
    String,
    Complex,
    List,
}

/// An `impl Trait for Type;` entry.
pub struct MiniextendrModuleTraitImpl {
    /// The identifiers of the trait path's segments.
    pub trait_path: Vec<String>,
    /// The implementing type.
    pub impl_type: TypeModel,
    /// The implementing type's tokens, written out one after the other with
    /// a space between them (`Vec < i32 >`).
    pub type_text: String,
}

/// Whether a character of a type's text is replaced by `_` in a name.
pub open spec fn is_name_separator(c: char) -> bool {
    c == '<' || c == '>' || c == ' ' || c == ':' || c == ','
}

/// A type's text with separators replaced by `_`.
pub open spec fn separators_replaced(s: Seq<char>) -> Seq<char> {
    s.map_values(|c: char| if is_name_separator(c) { '_' } else { c })
}

/// Each run of `_` shortened to one `_`.
pub open spec fn collapse_underscores(s: Seq<char>) -> Seq<char>
    decreases s.len(),
{
    if s.len() >= 2 && s[0] == '_' && s[1] == '_' {
        collapse_underscores(s.skip(1))
    } else if s.len() >= 1 {
        seq![s[0]] + collapse_underscores(s.skip(1))
    } else {
        Seq::empty()
    }
}

/// A type's text made into a name: separators replaced by `_`, runs of
/// `_` shortened to one, and `_` trimmed from both ends (`Vec < i32 >`
/// gives `Vec_i32`).
pub open spec fn sanitized_type_name(s: Seq<char>) -> Seq<char> {
    trim_start_char(trim_end_char(collapse_underscores(separators_replaced(s)), '_'), '_')
}

/// The last segment of the trait path (empty for an empty path).
pub open spec fn last_path_ident(p: Seq<String>) -> Seq<char> {
    if p.len() > 0 {
        p.last()@
    } else {
        Seq::empty()
    }
}

/// The ALTREP base of a data trait's name.
pub open spec fn altrep_base_of(name: Seq<char>) -> Option<AltrepBase> {
    if name == "AltIntegerData"@ {
        Some(AltrepBase::Integer)
    } else if name == "AltRealData"@ {
        Some(AltrepBase::Real)
    } else if name == "AltLogicalData"@ {
        Some(AltrepBase::Logical)
    } else if name == "AltRawData"@ {
        Some(AltrepBase::Raw)
    } else if name == "AltStringData"@ {
        Some(AltrepBase::String)
    } else if name == "AltComplexData"@ {
        Some(AltrepBase::Complex)
    } else if name == "AltListData"@ {
        Some(AltrepBase::List)
    } else {
        None
    }
}

fn replace_separators(s: &str) -> (r: String)
    ensures
        r@ == separators_replaced(s@),
{
    let n = s.unicode_len();
    let mut out = String::new();
    let mut i: usize = 0;
    while i < n
        invariant
            n == s@.len(),
            i <= n,
            out@ =~= separators_replaced(s@).take(i as int),
        decreases n - i,
    {
        let c = s.get_char(i);
        let d = if c == '<' || c == '>' || c == ' ' || c == ':' || c == ',' {
            '_'
        } else {
            c
        };
        push_char(&mut out, d);
        i = i + 1;
    }
    out
}

fn collapse(s: &str) -> (r: String)
    ensures
        r@ == collapse_underscores(s@),
{
    let n = s.unicode_len();
    let mut out = String::new();
    let mut i: usize = 0;
    assert(s@.skip(0) =~= s@);
    assert(out@ + collapse_underscores(s@) =~= collapse_underscores(s@));
    while i < n
        invariant
            n == s@.len(),
            i <= n,
            collapse_underscores(s@) == out@ + collapse_underscores(s@.skip(i as int)),
        decreases n - i,
    {
        let c = s.get_char(i);
        assert(s@.skip(i as int).skip(1) =~= s@.skip(i as int + 1));
        if c == '_' && i + 1 < n && s.get_char(i + 1) == '_' {
        } else {
            push_char(&mut out, c);
        }
        i = i + 1;
    }
    assert(s@.skip(i as int) =~= Seq::<char>::empty());
    assert(out@ + Seq::<char>::empty() =~= out@);
    out
}

impl MiniextendrModuleTraitImpl {
    /// The implementing type as a name (`Vec<i32>` gives `Vec_i32`).
    pub fn type_name_sanitized(&self) -> (r: String)
        ensures
            r@ == sanitized_type_name(self.type_text@),
    {
        let replaced = replace_separators(self.type_text.as_str());
        let collapsed = collapse(replaced.as_str());
        let end_trimmed = str_trim_end_char(collapsed.as_str(), '_');
        String::from_str(str_trim_start_char(end_trimmed, '_'))
    }

    /// The trait's name: the last segment of its path.
    pub fn trait_name(&self) -> (r: String)
        ensures
            r@ == last_path_ident(self.trait_path@),
    {
        let n = self.trait_path.len();
        if n > 0 {
            self.trait_path[n - 1].clone()
        } else {
            String::new()
        }
    }

    /// `{TYPE}_{TRAIT}_CALL_DEFS`, both uppercased.
    pub fn call_defs_const_ident(&self) -> (r: String)
        ensures
            r@ == str_upper(sanitized_type_name(self.type_text@)) + "_"@ + str_upper(
                last_path_ident(self.trait_path@),
            ) + "_CALL_DEFS"@,
    {
        let ty = self.type_name_sanitized();
        let type_upper = str_to_uppercase(ty.as_str());
        let name = self.trait_name();
        let trait_upper = str_to_uppercase(name.as_str());
        concat4(type_upper.as_str(), "_", trait_upper.as_str(), "_CALL_DEFS")
    }

    /// `R_WRAPPERS_{TYPE}_{TRAIT}_IMPL`, both uppercased.
    pub fn r_wrappers_const_ident(&self) -> (r: String)
        ensures
            r@ == "R_WRAPPERS_"@ + str_upper(sanitized_type_name(self.type_text@)) + "_"@ + str_upper(
                last_path_ident(self.trait_path@),
            ) + "_IMPL"@,
    {
        let ty = self.type_name_sanitized();
        let type_upper = str_to_uppercase(ty.as_str());
        let name = self.trait_name();
        let trait_upper = str_to_uppercase(name.as_str());
        let mut r = concat4("R_WRAPPERS_", type_upper.as_str(), "_", trait_upper.as_str());
        r.append("_IMPL");
        r
    }

    /// The ALTREP base when the trait is an ALTREP data trait
    /// (`AltIntegerData`, ..., `AltListData`).
    pub fn altrep_base(&self) -> (r: Option<AltrepBase>)
        ensures
            r == altrep_base_of(last_path_ident(self.trait_path@)),
    {
        let name = self.trait_name();
        let n = name.as_str();
        if crate::text::str_eq(n, "AltIntegerData") {
            Some(AltrepBase::Integer)
        } else if crate::text::str_eq(n, "AltRealData") {
            Some(AltrepBase::Real)
        } else if crate::text::str_eq(n, "AltLogicalData") {
            Some(AltrepBase::Logical)
        } else if crate::text::str_eq(n, "AltRawData") {
            Some(AltrepBase::Raw)
        } else if crate::text::str_eq(n, "AltStringData") {
            Some(AltrepBase::String)
        } else if crate::text::str_eq(n, "AltComplexData") {
            Some(AltrepBase::Complex)
        } else if crate::text::str_eq(n, "AltListData") {
            Some(AltrepBase::List)
        } else {
            None
        }
    }

    /// The type's identifier when it is a plain one-segment path without
    /// arguments (`Counter`); `None` for `Vec<i32>`, `a::B`, references, ...
    pub fn simple_type_ident(&self) -> (r: Option<&str>)
        ensures
            match r {
                Some(id) => self.impl_type matches TypeModel::Path(segs) && segs@.len() == 1
                    && segs@[0].args == SegmentArgs::Bare && id@ == segs@[0].ident@,
                None => !(self.impl_type matches TypeModel::Path(segs) && segs@.len() == 1
                    && segs@[0].args == SegmentArgs::Bare),
            },
    {
        match &self.impl_type {
            TypeModel::Path(segs) => {
                if segs.len() == 1 {
                    match &segs[0].args {
                        SegmentArgs::Bare => Some(segs[0].ident.as_str()),
                        _ => None,
                    }
                } else {
                    None
                }
            },
            _ => None,
        }
    }
}

// ---------------------------------------------------------------------------
// The module declaration
// ---------------------------------------------------------------------------

/// One `;`-terminated entry of the body.
pub enum MiniextendrModuleItem {
    /// `mod name;`
    Module(String),
    /// `use name;`
    Use(String),
    /// `struct Name;`
    Struct(String),
    /// `fn name;`
    Func(MiniextendrModuleFunction),
    /// `impl Type;` / `impl Type as "label";`
    Impl(MiniextendrModuleImpl),
    /// `impl Trait for Type;`
    TraitImpl(MiniextendrModuleTraitImpl),
    /// `vctrs Type;`
    Vctrs(MiniextendrModuleVctrs),
}

/// The body's entries, by kind, in the order they were written.
pub struct MiniextendrModule {
    /// The name that drives the `R_init_<name>_miniextendr` symbol.
    pub module_name: String,
    pub uses: Vec<String>,
    pub functions: Vec<MiniextendrModuleFunction>,
    pub structs: Vec<String>,
    pub impls: Vec<MiniextendrModuleImpl>,
    pub trait_impls: Vec<MiniextendrModuleTraitImpl>,
    pub vctrs: Vec<MiniextendrModuleVctrs>,
}

/// Why a body is refused; each error names the entry (by position) it is
/// reported at.
#[derive(Clone, Copy, Debug, PartialEq, Eq, Structural)]
pub enum ModuleError {
    /// A second `mod <name>;`, at that entry.
    DuplicateMod { at: usize },
    /// No `mod <name>;`; reported at the first entry, if there is one.
    MissingMod { first_item: Option<usize> },
}

impl ModuleError {
    /// The diagnostic reported for this error.
    pub fn message(&self) -> (r: &'static str)
        ensures
            r@ == match *self {
                ModuleError::DuplicateMod { .. } => "duplicate `mod <name>`"@,
                ModuleError::MissingMod { .. } =>
                    "missing `mod <name>;` declaration (required as first item in miniextendr_module!)"@,
            },
    {
        match self {
            ModuleError::DuplicateMod { .. } => "duplicate `mod <name>`",
            ModuleError::MissingMod { .. } =>
                "missing `mod <name>;` declaration (required as first item in miniextendr_module!)",
        }
    }
}

/// The first `mod` entry at or after `from`.
pub open spec fn mod_index_from(items: Seq<MiniextendrModuleItem>, from: int) -> Option<int>
    decreases items.len() - from,
{
    if from < 0 || from >= items.len() {
        None
    } else if items[from] is Module {
        Some(from)
    } else {
        mod_index_from(items, from + 1)
    }
}

/// The `use` entries, in order.
pub open spec fn uses_of(items: Seq<MiniextendrModuleItem>) -> Seq<String>
    decreases items.len(),
{
    if items.len() == 0 {
        Seq::empty()
    } else {
        uses_of(items.drop_last()) + match items.last() {
            MiniextendrModuleItem::Use(u) => seq![u],
            _ => Seq::empty(),
        }
    }
}

/// The `struct` entries, in order.
pub open spec fn structs_of(items: Seq<MiniextendrModuleItem>) -> Seq<String>
    decreases items.len(),
{
    if items.len() == 0 {
        Seq::empty()
    } else {
        structs_of(items.drop_last()) + match items.last() {
            MiniextendrModuleItem::Struct(x) => seq![x],
            _ => Seq::empty(),
        }
    }
}

/// The `fn` entries, in order.
pub open spec fn functions_of(items: Seq<MiniextendrModuleItem>) -> Seq<MiniextendrModuleFunction>
    decreases items.len(),
{
    if items.len() == 0 {
        Seq::empty()
    } else {
        functions_of(items.drop_last()) + match items.last() {
            MiniextendrModuleItem::Func(x) => seq![x],
            _ => Seq::empty(),
        }
    }
}

/// The `impl Type` entries, in order.
pub open spec fn impls_of(items: Seq<MiniextendrModuleItem>) -> Seq<MiniextendrModuleImpl>
    decreases items.len(),
{
    if items.len() == 0 {
        Seq::empty()
    } else {
        impls_of(items.drop_last()) + match items.last() {
            MiniextendrModuleItem::Impl(x) => seq![x],
            _ => Seq::empty(),
        }
    }
}

/// The `impl Trait for Type` entries, in order.
pub open spec fn trait_impls_of(items: Seq<MiniextendrModuleItem>) -> Seq<MiniextendrModuleTraitImpl>
    decreases items.len(),
{
    if items.len() == 0 {
        Seq::empty()
    } else {
        trait_impls_of(items.drop_last()) + match items.last() {
            MiniextendrModuleItem::TraitImpl(x) => seq![x],
            _ => Seq::empty(),
        }
    }
}

/// The `vctrs` entries, in order.
pub open spec fn vctrs_of(items: Seq<MiniextendrModuleItem>) -> Seq<MiniextendrModuleVctrs>
    decreases items.len(),
{
    if items.len() == 0 {
        Seq::empty()
    } else {
        vctrs_of(items.drop_last()) + match items.last() {
            MiniextendrModuleItem::Vctrs(x) => seq![x],
            _ => Seq::empty(),
        }
    }
}

/// Whether `r` is what a body of `items` assembles to: refused at a second
/// `mod` entry, or for the lack of one (at the first entry); else the
/// module's name and its entries by kind, in order.
pub open spec fn assembled(items: Seq<MiniextendrModuleItem>, r: Result<MiniextendrModule, ModuleError>) -> bool {
    match mod_index_from(items, 0) {
        None => r == Err::<MiniextendrModule, _>(
            ModuleError::MissingMod {
                first_item: if items.len() > 0 {
                    Some(0)
                } else {
                    None
                },
            },
        ),
        Some(a) => match mod_index_from(items, a + 1) {
            Some(b) => r == Err::<MiniextendrModule, _>(ModuleError::DuplicateMod { at: b as usize }),
            None => match r {
                Ok(m) => {
                    &&& items[a] == MiniextendrModuleItem::Module(m.module_name)
                    &&& m.uses@ == uses_of(items)
                    &&& m.structs@ == structs_of(items)
                    &&& m.functions@ == functions_of(items)
                    &&& m.impls@ == impls_of(items)
                    &&& m.trait_impls@ == trait_impls_of(items)
                    &&& m.vctrs@ == vctrs_of(items)
                },
                Err(_) => false,
            },
        },
    }
}

proof fn lemma_no_mod_before(items: Seq<MiniextendrModuleItem>, i: int)
    requires
        0 <= i <= items.len(),
        forall|j: int| 0 <= j < i ==> !(#[trigger] items[j] is Module),
    ensures
        mod_index_from(items, 0) == mod_index_from(items, i),
    decreases i,
{
    if i > 0 {
        lemma_no_mod_before(items, i - 1);
    }
}

proof fn lemma_no_mod_between(items: Seq<MiniextendrModuleItem>, from: int, i: int)
    requires
        0 <= from <= i <= items.len(),
        forall|j: int| from <= j < i ==> !(#[trigger] items[j] is Module),
    ensures
        mod_index_from(items, from) == mod_index_from(items, i),
    decreases i - from,
{
    if from < i {
        lemma_no_mod_between(items, from + 1, i);
    }
}

impl MiniextendrModule {
    /// Assemble the body's entries: exactly one `mod <name>;` is required;
    /// the other entries are gathered by kind, in order.
    pub fn from_items(items: Vec<MiniextendrModuleItem>) -> (r: Result<MiniextendrModule, ModuleError>)
        ensures
            assembled(items@, r),
    {
        let ghost all = items@;
        let n: usize = items.len();
        let mut rest = items;
        let mut name: Option<String> = None;
        let ghost mut name_at: int = -1;
        let mut uses: Vec<String> = Vec::new();
        let mut functions: Vec<MiniextendrModuleFunction> = Vec::new();
        let mut structs: Vec<String> = Vec::new();
        let mut impls: Vec<MiniextendrModuleImpl> = Vec::new();
        let mut trait_impls: Vec<MiniextendrModuleTraitImpl> = Vec::new();
        let mut vctrs: Vec<MiniextendrModuleVctrs> = Vec::new();
        let mut i: usize = 0;
        while rest.len() > 0
            invariant
                all == items@,
                all.len() == n,
                i <= n,
                rest@ == all.subrange(i as int, n as int),
                match name {
                    None => forall|j: int| 0 <= j < i ==> !(#[trigger] all[j] is Module),
                    Some(x) => {
                        &&& 0 <= name_at < i
                        &&& all[name_at] == MiniextendrModuleItem::Module(x)
                        &&& forall|j: int| 0 <= j < name_at ==> !(#[trigger] all[j] is Module)
                        &&& forall|j: int| name_at < j < i ==> !(#[trigger] all[j] is Module)
                    },
                },
                uses@ == uses_of(all.take(i as int)),
                structs@ == structs_of(all.take(i as int)),
                functions@ == functions_of(all.take(i as int)),
                impls@ == impls_of(all.take(i as int)),
                trait_impls@ == trait_impls_of(all.take(i as int)),
                vctrs@ == vctrs_of(all.take(i as int)),
            decreases rest@.len(),
        {
            let it = rest.remove(0);
            assert(it == all[i as int]);
            let ghost prefix = all.take(i as int + 1);
            assert(prefix.drop_last() =~= all.take(i as int));
            assert(prefix.last() == all[i as int]);
            match it {
                MiniextendrModuleItem::Module(m) => {
                    if name.is_some() {
                        proof {
                            lemma_no_mod_before(all, name_at);
                            lemma_no_mod_between(all, name_at + 1, i as int);
                            assert(all[i as int] is Module);
                            assert(mod_index_from(all, name_at) == Some(name_at));
                            assert(mod_index_from(all, i as int) == Some(i as int));
                        }
                        return Err(ModuleError::DuplicateMod { at: i });
                    }
                    name = Some(m);
                    proof {
                        name_at = i as int;
                    }
                },
                MiniextendrModuleItem::Use(u) => uses.push(u),
                MiniextendrModuleItem::Struct(s) => structs.push(s),
                MiniextendrModuleItem::Func(f) => functions.push(f),
                MiniextendrModuleItem::Impl(x) => impls.push(x),
                MiniextendrModuleItem::TraitImpl(x) => trait_impls.push(x),
                MiniextendrModuleItem::Vctrs(x) => vctrs.push(x),
            }
            assert(uses@ =~= uses_of(prefix));
            assert(structs@ =~= structs_of(prefix));
            assert(functions@ =~= functions_of(prefix));
            assert(impls@ =~= impls_of(prefix));
            assert(trait_impls@ =~= trait_impls_of(prefix));
            assert(vctrs@ =~= vctrs_of(prefix));
            i = i + 1;
        }
        assert(all.take(n as int) =~= all);
        match name {
            None => {
                proof {
                    lemma_no_mod_before(all, n as int);
                }
                Err(ModuleError::MissingMod { first_item: if n > 0 { Some(0) } else { None } })
            },
            Some(module_name) => {
                proof {
                    lemma_no_mod_before(all, name_at);
                    lemma_no_mod_between(all, name_at + 1, n as int);
                }
                Ok(MiniextendrModule { module_name, uses, functions, structs, impls, trait_impls, vctrs })
            },
        }
    }
}

// ---------------------------------------------------------------------------
// Laws
// ---------------------------------------------------------------------------

/// Whether `s` holds no two adjacent `_`.
pub open spec fn no_double_underscore(s: Seq<char>) -> bool {
    forall|i: int| 0 <= i < s.len() - 1 ==> !(#[trigger] s[i] == '_' && s[i + 1] == '_')
}

proof fn lemma_collapse_first(t: Seq<char>)
    requires
        t.len() > 0,
    ensures
        collapse_underscores(t).len() > 0,
        collapse_underscores(t)[0] == t[0],
    decreases t.len(),
{
    if t.len() >= 2 && t[0] == '_' && t[1] == '_' {
        lemma_collapse_first(t.skip(1));
    }
}

proof fn lemma_collapse_no_double(s: Seq<char>)
    ensures
        no_double_underscore(collapse_underscores(s)),
    decreases s.len(),
{
    if s.len() >= 2 && s[0] == '_' && s[1] == '_' {
        lemma_collapse_no_double(s.skip(1));
    } else if s.len() >= 1 {
        let t = s.skip(1);
        lemma_collapse_no_double(t);
        let r = collapse_underscores(s);
        let rt = collapse_underscores(t);
        assert(r == seq![s[0]] + rt);
        if t.len() > 0 {
            lemma_collapse_first(t);
        }
        assert forall|i: int| 0 <= i < r.len() - 1 implies !(#[trigger] r[i] == '_' && r[i + 1] == '_') by {
            if i > 0 {
                assert(r[i] == rt[i - 1] && r[i + 1] == rt[i]);
            } else {
                assert(r[1] == rt[0] && rt[0] == t[0] && t[0] == s[1]);
            }
        }
    }
}

proof fn lemma_trim_end_keeps(s: Seq<char>, c: char)
    requires
        no_double_underscore(s),
    ensures
        no_double_underscore(trim_end_char(s, c)),
        trim_end_char(s, c).len() > 0 ==> trim_end_char(s, c).last() != c,
        trim_end_char(s, c).len() > 0 && s.len() > 0 ==> trim_end_char(s, c)[0] == s[0],
    decreases s.len(),
{
    if s.len() > 0 && s.last() == c {
        let d = s.drop_last();
        assert forall|i: int| 0 <= i < d.len() - 1 implies !(#[trigger] d[i] == '_' && d[i + 1] == '_') by {
            assert(d[i] == s[i] && d[i + 1] == s[i + 1]);
        }
        lemma_trim_end_keeps(d, c);
    }
}

proof fn lemma_trim_start_keeps(s: Seq<char>, c: char)
    requires
        no_double_underscore(s),
        s.len() > 0 ==> s.last() != c,
    ensures
        no_double_underscore(trim_start_char(s, c)),
        trim_start_char(s, c).len() > 0 ==> trim_start_char(s, c)[0] != c,
        trim_start_char(s, c).len() > 0 ==> trim_start_char(s, c).last() != c,
    decreases s.len(),
{
    if s.len() > 0 && s[0] == c {
        let d = s.drop_first();
        assert forall|i: int| 0 <= i < d.len() - 1 implies !(#[trigger] d[i] == '_' && d[i + 1] == '_') by {
            assert(d[i] == s[i + 1] && d[i + 1] == s[i + 2]);
        }
        if d.len() > 0 {
            assert(d.last() == s.last());
        }
        lemma_trim_start_keeps(d, c);
    }
}

/// A sanitized type name is usable inside an identifier: it holds no `__`
/// and neither starts nor ends with `_`.
pub proof fn lemma_sanitized_name_is_clean(type_text: Seq<char>)
    ensures
        no_double_underscore(sanitized_type_name(type_text)),
        sanitized_type_name(type_text).len() > 0 ==> sanitized_type_name(type_text)[0] != '_'
            && sanitized_type_name(type_text).last() != '_',
{
    let c = collapse_underscores(separators_replaced(type_text));
    lemma_collapse_no_double(separators_replaced(type_text));
    lemma_trim_end_keeps(c, '_');
    lemma_trim_start_keeps(trim_end_char(c, '_'), '_');
}

/// The number of `mod` entries.
pub open spec fn mod_count(items: Seq<MiniextendrModuleItem>) -> nat
    decreases items.len(),
{
    if items.len() == 0 {
        0
    } else {
        mod_count(items.drop_last()) + if items.last() is Module {
            1nat
        } else {
            0nat
        }
    }
}

proof fn lemma_kinds_partition(items: Seq<MiniextendrModuleItem>)
    ensures
        uses_of(items).len() + structs_of(items).len() + functions_of(items).len() + impls_of(items).len()
            + trait_impls_of(items).len() + vctrs_of(items).len() + mod_count(items) == items.len(),
    decreases items.len(),
{
    if items.len() > 0 {
        lemma_kinds_partition(items.drop_last());
    }
}

proof fn lemma_mod_index_none(items: Seq<MiniextendrModuleItem>, from: int)
    requires
        0 <= from,
        mod_index_from(items, from) is None,
    ensures
        forall|j: int| from <= j < items.len() ==> !(#[trigger] items[j] is Module),
    decreases items.len() - from,
{
    if from < items.len() {
        lemma_mod_index_none(items, from + 1);
    }
}

proof fn lemma_mod_index_some(items: Seq<MiniextendrModuleItem>, from: int, a: int)
    requires
        0 <= from,
        mod_index_from(items, from) == Some(a),
    ensures
        from <= a < items.len(),
        items[a] is Module,
        forall|j: int| from <= j < a ==> !(#[trigger] items[j] is Module),
    decreases items.len() - from,
{
    if !(items[from] is Module) {
        lemma_mod_index_some(items, from + 1, a);
    }
}

proof fn lemma_count_prefix(items: Seq<MiniextendrModuleItem>, a: int, k: int)
    requires
        0 <= a,
        0 <= k <= items.len(),
        forall|j: int| 0 <= j < items.len() ==> (#[trigger] items[j] is Module <==> j == a),
    ensures
        mod_count(items.take(k)) == if a < k {
            1nat
        } else {
            0nat
        },
    decreases k,
{
    if k > 0 {
        lemma_count_prefix(items, a, k - 1);
        assert(items.take(k).drop_last() =~= items.take(k - 1));
        assert(items.take(k).last() == items[k - 1]);
        assert(items[k - 1] is Module <==> k - 1 == a);
    } else {
        assert(items.take(0) =~= Seq::<MiniextendrModuleItem>::empty());
    }
}

/// An accepted body loses no entry: besides its one `mod` entry, every
/// entry lands in exactly one of the module's lists.
pub proof fn lemma_module_keeps_every_entry(items: Seq<MiniextendrModuleItem>, m: MiniextendrModule)
    requires
        assembled(items, Ok(m)),
    ensures
        m.uses@.len() + m.structs@.len() + m.functions@.len() + m.impls@.len() + m.trait_impls@.len()
            + m.vctrs@.len() + 1 == items.len(),
{
    let a = mod_index_from(items, 0)->Some_0;
    lemma_mod_index_some(items, 0, a);
    lemma_mod_index_none(items, a + 1);
    lemma_count_prefix(items, a, items.len() as int);
    assert(items.take(items.len() as int) =~= items);
    lemma_kinds_partition(items);
}

} // verus!
