//! `#[miniextendr]` on a trait definition: the checks a trait must pass
//! before its ABI (type tag, vtable, view and method shims) is generated,
//! and what the generator reads of each method.
//!
//! A trait may not be generic; its methods may not be `async` or generic,
//! and take `&self`, `&mut self` (also written `self: &Self` /
//! `self: &mut Self`) or no receiver at all (static methods, which do not
//! go through the vtable).
use vstd::prelude::*;
use crate::text::{concat2, concat3, decimal, owned, push_decimal, str_eq, str_lower, str_to_lowercase, str_to_uppercase, str_upper};
use crate::types::{is_unit, is_unit_type, GenericArg, Param, Segment, SegmentArgs, TypeModel};

verus! {

/// A method's `self` receiver as written.
pub struct SelfReceiver {
    /// Written with `&` (`&self`, `&mut self`).
    pub reference: bool,
    /// Written with `mut` before `self` (`&mut self`, `mut self`).
    pub mutability: bool,
    /// Written with its type (`self: &Self`).
    pub explicit_type: bool,
    /// Its type (`&Self` for `&self`).
    pub ty: TypeModel,
}

/// A method declared in the trait.
pub struct TraitMethodSig {
    pub name: String,
    /// Declared `async`.
    pub is_async: bool,
    /// Declares generic parameters (types, lifetimes or constants).
    pub has_generics: bool,
    /// The receiver, when the first parameter is one.
    pub receiver: Option<SelfReceiver>,
    /// The parameters after the receiver.
    pub params: Vec<Param>,
    /// The declared return type (`None` without `->`).
    pub output: Option<TypeModel>,
    /// Has a default body.
    pub has_default: bool,
}

/// A trait definition, as far as the checks read it.
pub struct TraitModel {
    pub name: String,
    /// Declares generic parameters (types, lifetimes or constants).
    pub has_generics: bool,
    /// Its methods, in order (associated constants and types are not
    /// checked).
    pub methods: Vec<TraitMethodSig>,
}

/// What is wrong with a method.
#[derive(Clone, Copy, Debug, PartialEq, Eq, Structural)]
pub enum MethodFault {
    Async,
    Generic,
    ReceiverByValue,
}

/// Why a trait cannot get an ABI.
#[derive(Debug)]
pub enum TraitError {
    /// The trait has generic parameters.
    GenericTrait,
    /// A method has a fault.
    Method { fault: MethodFault, trait_name: String, method: String },
}

// ---------------------------------------------------------------------------
// Checks
// ---------------------------------------------------------------------------

/// Whether a receiver borrows `self`: `&self` / `&mut self`, or an explicit
/// reference type (`self: &Self`).
pub open spec fn receiver_borrows(r: SelfReceiver) -> bool {
    r.reference || (r.explicit_type && r.ty is Reference)
}

/// The first fault of a method: `async`, then generics, then a receiver
/// that takes `self` by value (`self`, `self: Box<Self>`).
pub open spec fn method_fault(m: TraitMethodSig) -> Option<MethodFault> {
    if m.is_async {
        Some(MethodFault::Async)
    } else if m.has_generics {
        Some(MethodFault::Generic)
    } else {
        match m.receiver {
            Some(r) => if receiver_borrows(r) {
                None
            } else {
                Some(MethodFault::ReceiverByValue)
            },
            None => None,
        }
    }
}

/// The index of the first method at or after `from` that has a fault.
pub open spec fn first_faulty(ms: Seq<TraitMethodSig>, from: int) -> Option<int>
    decreases ms.len() - from,
{
    if from < 0 || from >= ms.len() {
        None
    } else if method_fault(ms[from]) is Some {
        Some(from)
    } else {
        first_faulty(ms, from + 1)
    }
}

/// Whether `r` reports exactly the first problem of the trait: its generics,
/// else the first faulty method with its fault and names; `Ok` when there is
/// none.
pub open spec fn reports_trait(t: TraitModel, r: Result<(), TraitError>) -> bool {
    if t.has_generics {
        r matches Err(TraitError::GenericTrait)
    } else {
        match first_faulty(t.methods@, 0) {
            None => r is Ok,
            Some(k) => match r {
                Err(TraitError::Method { fault, trait_name, method }) => {
                    &&& Some(fault) == method_fault(t.methods@[k])
                    &&& trait_name@ == t.name@
                    &&& method@ == t.methods@[k].name@
                },
                _ => false,
            },
        }
    }
}

/// Check one method of the trait named `trait_name`.
pub fn validate_method(method: &TraitMethodSig, trait_name: &str) -> (r: Result<(), TraitError>)
    ensures
        match method_fault(*method) {
            None => r is Ok,
            Some(f) => match r {
                Err(TraitError::Method { fault, trait_name: t, method: m }) => {
                    &&& fault == f
                    &&& t@ == trait_name@
                    &&& m@ == method.name@
                },
                _ => false,
            },
        },
{
    let fault = if method.is_async {
        Some(MethodFault::Async)
    } else if method.has_generics {
        Some(MethodFault::Generic)
    } else {
        match &method.receiver {
            Some(r) => {
                let borrows = r.reference || (r.explicit_type && match &r.ty {
                    TypeModel::Reference(..) => true,
                    _ => false,
                });
                if borrows {
                    None
                } else {
                    Some(MethodFault::ReceiverByValue)
                }
            },
            None => None,
        }
    };
    match fault {
        None => Ok(()),
        Some(fault) => Err(
            TraitError::Method { fault, trait_name: owned(trait_name), method: method.name.clone() },
        ),
    }
}

/// Check that a trait can get an ABI: no generic parameters, and no method
/// that is `async`, generic or takes `self` by value. The first problem is
/// reported.
pub fn validate_trait(t: &TraitModel) -> (r: Result<(), TraitError>)
    ensures
        reports_trait(*t, r),
{
    if t.has_generics {
        return Err(TraitError::GenericTrait);
    }
    let mut i: usize = 0;
    while i < t.methods.len()
        invariant
            !t.has_generics,
            i <= t.methods@.len(),
            first_faulty(t.methods@, 0) == first_faulty(t.methods@, i as int),
        decreases t.methods@.len() - i,
    {
        let r = validate_method(&t.methods[i], t.name.as_str());
        match r {
            Err(e) => {
                return Err(e);
            },
            Ok(()) => {},
        }
        i = i + 1;
    }
    Ok(())
}

/// The diagnostic for a trait error.
pub open spec fn trait_error_message(e: TraitError) -> Seq<char> {
    match e {
        TraitError::GenericTrait => "#[miniextendr] traits cannot have generic parameters"@,
        TraitError::Method { fault, trait_name, method } => match fault {
            MethodFault::Async => "#[miniextendr] trait `"@ + trait_name@ + "::"@ + method@ + "` cannot be async"@,
            MethodFault::Generic => "#[miniextendr] trait method `"@ + trait_name@ + "::"@ + method@
                + "` cannot have generic parameters"@,
            MethodFault::ReceiverByValue => "#[miniextendr] trait method `"@ + trait_name@ + "::"@ + method@
                + "` receiver must be `&self` or `&mut self`, not `self` by value"@,
        },
    }
}

impl TraitError {
    /// The diagnostic reported for this error.
    pub fn message(&self) -> (r: String)
        ensures
            r@ == trait_error_message(*self),
    {
        match self {
            TraitError::GenericTrait => owned("#[miniextendr] traits cannot have generic parameters"),
            TraitError::Method { fault, trait_name, method } => {
                let mut m = match fault {
                    MethodFault::Async => owned("#[miniextendr] trait `"),
                    _ => owned("#[miniextendr] trait method `"),
                };
                m.append(trait_name.as_str());
                m.append("::");
                m.append(method.as_str());
                match fault {
                    MethodFault::Async => m.append("` cannot be async"),
                    MethodFault::Generic => m.append("` cannot have generic parameters"),
                    MethodFault::ReceiverByValue => m.append(
                        "` receiver must be `&self` or `&mut self`, not `self` by value",
                    ),
                }
                m
            },
        }
    }
}

// ---------------------------------------------------------------------------
// What the generator reads of a method
// ---------------------------------------------------------------------------

/// Whether `Self` occurs in `ty`: as a path segment, or inside type
/// arguments, references, tuples, slices, arrays or parentheses.
pub open spec fn mentions_self(ty: TypeModel) -> bool
    decreases ty, 0int,
{
    match ty {
        TypeModel::Path(segs) => segs_mention_self(segs@, segs@.len() as int),
        TypeModel::Reference(_, inner) => mentions_self(*inner),
        TypeModel::Paren(inner) => mentions_self(*inner),
        TypeModel::Slice(inner) => mentions_self(*inner),
        TypeModel::Array(inner, _) => mentions_self(*inner),
        TypeModel::Tuple(elems) => elems_mention_self(elems@, elems@.len() as int),
        TypeModel::Group(_) => false,
        TypeModel::Other => false,
    }
}

/// Whether one of the first `n` segments is `Self` or has a type argument
/// that mentions it.
pub open spec fn segs_mention_self(segs: Seq<Segment>, n: int) -> bool
    decreases segs, n,
{
    if n <= 0 || n > segs.len() {
        false
    } else {
        segs_mention_self(segs, n - 1) || segs[n - 1].ident@ == "Self"@ || match segs[n - 1].args {
            SegmentArgs::Angle(args) => args_mention_self(args@, args@.len() as int),
            _ => false,
        }
    }
}

/// Whether one of the first `n` generic arguments is a type that mentions
/// `Self`.
pub open spec fn args_mention_self(args: Seq<GenericArg>, n: int) -> bool
    decreases args, n,
{
    if n <= 0 || n > args.len() {
        false
    } else {
        args_mention_self(args, n - 1) || match args[n - 1] {
            GenericArg::Type(t) => mentions_self(t),
            GenericArg::Other => false,
        }
    }
}

/// Whether one of the first `n` tuple elements mentions `Self`.
pub open spec fn elems_mention_self(elems: Seq<TypeModel>, n: int) -> bool
    decreases elems, n,
{
    if n <= 0 || n > elems.len() {
        false
    } else {
        elems_mention_self(elems, n - 1) || mentions_self(elems[n - 1])
    }
}

/// Whether `Self` occurs in `ty` (a method returning `Self`,
/// `Option<Self>`, `Vec<Self>`, ... needs `IntoR` on the implementing type).
pub fn type_contains_self(ty: &TypeModel) -> (r: bool)
    ensures
        r == mentions_self(*ty),
    decreases ty,
{
    match ty {
        TypeModel::Path(segs) => {
            let mut found = false;
            let mut i: usize = 0;
            while i < segs.len()
                invariant
                    i <= segs@.len(),
                    *ty == TypeModel::Path(*segs),
                    found == segs_mention_self(segs@, i as int),
                decreases segs@.len() - i,
            {
                if !found {
                    let seg = &segs[i];
                    found = str_eq(seg.ident.as_str(), "Self");
                    if !found {
                        match &seg.args {
                            SegmentArgs::Angle(args) => {
                                let mut j: usize = 0;
                                while j < args.len()
                                    invariant
                                        j <= args@.len(),
                                        i < segs@.len(),
                                        *ty == TypeModel::Path(*segs),
                                        segs@[i as int].args == SegmentArgs::Angle(*args),
                                        found == args_mention_self(args@, j as int),
                                    decreases args@.len() - j,
                                {
                                    if !found {
                                        match &args[j] {
                                            GenericArg::Type(t) => {
                                                proof {
                                                    assert(decreases_to!(*ty => *t)) by {
                                                        assert(decreases_to!(*ty => (*ty)->Path_0));
                                                        assert(decreases_to!(*segs => segs@));
                                                        assert(decreases_to!(segs@ => segs@[i as int]));
                                                        assert(decreases_to!(segs@[i as int] => segs@[i as int].args));
                                                        assert(decreases_to!(segs@[i as int].args => segs@[i as int].args->Angle_0));
                                                        assert(decreases_to!(*args => args@));
                                                        assert(decreases_to!(args@ => args@[j as int]));
                                                        assert(decreases_to!(args@[j as int] => *t));
                                                    }
                                                }
                                                found = type_contains_self(t);
                                            },
                                            GenericArg::Other => {},
                                        }
                                    }
                                    j = j + 1;
                                }
                            },
                            _ => {},
                        }
                    }
                }
                i = i + 1;
            }
            found
        },
        TypeModel::Reference(_, inner) => type_contains_self(inner),
        TypeModel::Paren(inner) => type_contains_self(inner),
        TypeModel::Slice(inner) => type_contains_self(inner),
        TypeModel::Array(inner, _) => type_contains_self(inner),
        TypeModel::Tuple(elems) => {
            let mut found = false;
            let mut i: usize = 0;
            while i < elems.len()
                invariant
                    i <= elems@.len(),
                    *ty == TypeModel::Tuple(*elems),
                    found == elems_mention_self(elems@, i as int),
                decreases elems@.len() - i,
            {
                if !found {
                    proof {
                        assert(decreases_to!(*ty => elems@[i as int])) by {
                            assert(decreases_to!(*ty => (*ty)->Tuple_0));
                            assert(decreases_to!(*elems => elems@));
                            assert(decreases_to!(elems@ => elems@[i as int]));
                        }
                    }
                    found = type_contains_self(&elems[i]);
                }
                i = i + 1;
            }
            found
        },
        TypeModel::Group(_) => false,
        TypeModel::Other => false,
    }
}

/// Whether `ty` is `&Self` or `&mut Self`.
pub open spec fn is_self_ref(ty: TypeModel) -> bool {
    match ty {
        TypeModel::Reference(_, inner) => match *inner {
            TypeModel::Path(segs) => segs@.len() == 1 && segs@[0].ident@ == "Self"@ && segs@[0].args
                == SegmentArgs::Bare,
            _ => false,
        },
        _ => false,
    }
}

/// Whether a parameter's type is `&Self` or `&mut Self` (the shim then
/// borrows from an `ExternalPtr` of the implementing type), and whether the
/// borrow is `&mut`.
pub fn param_is_self_ref(ty: &TypeModel) -> (r: (bool, bool))
    ensures
        r.0 == is_self_ref(*ty),
        r.1 == (is_self_ref(*ty) && (*ty matches TypeModel::Reference(m, _) && m)),
{
    match ty {
        TypeModel::Reference(m, inner) => match &**inner {
            TypeModel::Path(segs) => if segs.len() == 1 && str_eq(segs[0].ident.as_str(), "Self") && match &segs[0].args {
                SegmentArgs::Bare => true,
                _ => false,
            } {
                (true, *m)
            } else {
                (false, false)
            },
            _ => (false, false),
        },
        _ => (false, false),
    }
}

/// What the generator reads of a method.
pub struct MethodInfo {
    pub name: String,
    /// Has a receiver (instance method).
    pub has_self: bool,
    /// The receiver is written with `mut` (`&mut self`).
    pub is_mut: bool,
    /// The parameter types, after the receiver.
    pub param_types: Vec<TypeModel>,
    /// The parameter names, after the receiver (`arg{i}` for a pattern that
    /// is not a plain identifier).
    pub param_names: Vec<String>,
    /// The return type (`None` for none or `()`).
    pub return_type: Option<TypeModel>,
    /// Has a default body.
    pub has_default: bool,
}

/// The types of the typed parameters among `ps`.
pub open spec fn typed_types(ps: Seq<Param>) -> Seq<TypeModel>
    decreases ps.len(),
{
    if ps.len() == 0 {
        Seq::empty()
    } else {
        typed_types(ps.drop_last()) + match ps.last() {
            Param::Typed { name: _, ty } => seq![ty],
            Param::Receiver => Seq::empty(),
        }
    }
}

/// The name of the parameter at position `i`: its identifier, else
/// `arg{i}`.
pub open spec fn param_name_at(name: Option<String>, i: nat) -> Seq<char> {
    match name {
        Some(n) => n@,
        None => "arg"@ + decimal(i),
    }
}

/// The names of the typed parameters among `ps`.
pub open spec fn typed_names(ps: Seq<Param>) -> Seq<Seq<char>>
    decreases ps.len(),
{
    if ps.len() == 0 {
        Seq::empty()
    } else {
        typed_names(ps.drop_last()) + match ps.last() {
            Param::Typed { name, ty: _ } => seq![param_name_at(name, (ps.len() - 1) as nat)],
            Param::Receiver => Seq::empty(),
        }
    }
}

/// The return type the generator sees: none for `()`.
pub open spec fn returned(output: Option<TypeModel>) -> Option<TypeModel> {
    match output {
        Some(t) => if is_unit(t) {
            None
        } else {
            Some(t)
        },
        None => None,
    }
}

/// The views of a vector of strings.
pub open spec fn name_views(v: Seq<String>) -> Seq<Seq<char>> {
    v.map_values(|s: String| s@)
}

/// What the generator reads of a method: its name, receiver, parameter
/// types and names after the receiver, return type and default body.
pub fn extract_method_info(method: TraitMethodSig) -> (r: MethodInfo)
    ensures
        r.name == method.name,
        r.has_self == method.receiver is Some,
        r.is_mut == (method.receiver is Some && method.receiver->Some_0.mutability),
        r.param_types@ == typed_types(method.params@),
        name_views(r.param_names@) == typed_names(method.params@),
        r.return_type == returned(method.output),
        r.has_default == method.has_default,
{
    let TraitMethodSig { name, is_async: _, has_generics: _, receiver, params, output, has_default } = method;
    let (has_self, is_mut) = match &receiver {
        Some(r) => (true, r.mutability),
        None => (false, false),
    };
    let ghost all = params@;
    let n: usize = params.len();
    let mut rest = params;
    let mut param_types: Vec<TypeModel> = Vec::new();
    let mut param_names: Vec<String> = Vec::new();
    let mut i: usize = 0;
    while rest.len() > 0
        invariant
            i <= all.len(),
            all.len() == n,
            rest@ == all.subrange(i as int, all.len() as int),
            param_types@ == typed_types(all.take(i as int)),
            name_views(param_names@) == typed_names(all.take(i as int)),
        decreases rest@.len(),
    {
        let p = rest.remove(0);
        assert(p == all[i as int]);
        assert(all.take(i as int + 1).drop_last() =~= all.take(i as int));
        match p {
            Param::Typed { name, ty } => {
                param_types.push(ty);
                let n = match name {
                    Some(n) => n,
                    None => {
                        let mut n = owned("arg");
                        push_decimal(&mut n, i);
                        n
                    },
                };
                param_names.push(n);
            },
            Param::Receiver => {},
        }
        assert(name_views(param_names@) =~= typed_names(all.take(i as int + 1)));
        assert(param_types@ =~= typed_types(all.take(i as int + 1)));
        i = i + 1;
    }
    assert(all.take(i as int) =~= all);
    let return_type = match output {
        Some(ty) => if is_unit_type(&ty) {
            None
        } else {
            Some(ty)
        },
        None => None,
    };
    MethodInfo { name, has_self, is_mut, param_types, param_names, return_type, has_default }
}

/// A bound the shims and the vtable builder put on the implementing type.
#[derive(Clone, Copy, Debug, PartialEq, Eq, Structural)]
pub enum ExtraBound {
    /// `IntoR`: a method returns a type that mentions `Self`.
    IntoR,
    /// `TypedExternal + 'static`: a method takes `&Self` or `&mut Self`.
    TypedExternal,
}

/// Whether a method returns a type that mentions `Self`.
pub open spec fn returns_self(m: MethodInfo) -> bool {
    match m.return_type {
        Some(t) => mentions_self(t),
        None => false,
    }
}

/// Whether a method takes `&Self` or `&mut Self`.
pub open spec fn takes_self_ref(m: MethodInfo) -> bool {
    exists|j: int| 0 <= j < m.param_types@.len() && is_self_ref(#[trigger] m.param_types@[j])
}

/// The bounds needed by the methods, `IntoR` first.
pub open spec fn extra_bounds(ms: Seq<MethodInfo>) -> Seq<ExtraBound> {
    (if exists|k: int| 0 <= k < ms.len() && returns_self(#[trigger] ms[k]) {
        seq![ExtraBound::IntoR]
    } else {
        Seq::empty()
    }) + (if exists|k: int| 0 <= k < ms.len() && takes_self_ref(#[trigger] ms[k]) {
        seq![ExtraBound::TypedExternal]
    } else {
        Seq::empty()
    })
}

fn method_takes_self_ref(m: &MethodInfo) -> (r: bool)
    ensures
        r == takes_self_ref(*m),
{
    let mut j: usize = 0;
    while j < m.param_types.len()
        invariant
            j <= m.param_types@.len(),
            forall|q: int| 0 <= q < j ==> !is_self_ref(#[trigger] m.param_types@[q]),
        decreases m.param_types@.len() - j,
    {
        if param_is_self_ref(&m.param_types[j]).0 {
            return true;
        }
        j = j + 1;
    }
    false
}

/// The extra bounds the methods need on the implementing type: `IntoR`
/// when one returns a type that mentions `Self`, then
/// `TypedExternal + 'static` when one takes `&Self` or `&mut Self`.
pub fn compute_extra_bounds(methods: &[MethodInfo]) -> (r: Vec<ExtraBound>)
    ensures
        r@ == extra_bounds(methods@),
{
    let mut needs_into_r = false;
    let mut needs_typed_external = false;
    let mut k: usize = 0;
    while k < methods.len()
        invariant
            k <= methods@.len(),
            needs_into_r == exists|q: int| 0 <= q < k && returns_self(#[trigger] methods@[q]),
            needs_typed_external == exists|q: int| 0 <= q < k && takes_self_ref(#[trigger] methods@[q]),
        decreases methods@.len() - k,
    {
        let m = &methods[k];
        let r = match &m.return_type {
            Some(t) => type_contains_self(t),
            None => false,
        };
        if r {
            needs_into_r = true;
        }
        if method_takes_self_ref(m) {
            needs_typed_external = true;
        }
        k = k + 1;
    }
    let mut bounds: Vec<ExtraBound> = Vec::new();
    if needs_into_r {
        bounds.push(ExtraBound::IntoR);
    }
    if needs_typed_external {
        bounds.push(ExtraBound::TypedExternal);
    }
    assert(bounds@ =~= extra_bounds(methods@));
    bounds
}

// ---------------------------------------------------------------------------
// The trait's ABI
// ---------------------------------------------------------------------------

/// How a method shim reads one argument.
#[derive(Clone, Copy, Debug, PartialEq, Eq, Structural)]
pub enum ShimArg {
    /// Converted from its `SEXP`.
    Plain,
    /// `&Self`: borrowed from an `ExternalPtr` of the implementing type.
    SelfRef,
    /// `&mut Self`: borrowed mutably from an `ExternalPtr`.
    SelfRefMut,
}

/// How a shim reads an argument of type `t`.
pub open spec fn shim_arg_of(t: TypeModel) -> ShimArg {
    if is_self_ref(t) {
        if t matches TypeModel::Reference(m, _) && m {
            ShimArg::SelfRefMut
        } else {
            ShimArg::SelfRef
        }
    } else {
        ShimArg::Plain
    }
}

/// Whether a method gets a wrapper on the trait's view: no `Self` in its
/// return type or parameters (on the view, `Self` is the view).
pub open spec fn has_view_method(m: MethodInfo) -> bool {
    !returns_self(m) && forall|j: int| 0 <= j < m.param_types@.len() ==> !mentions_self(#[trigger] m.param_types@[j])
}

/// One vtable entry of the trait's ABI.
pub struct AbiMethod {
    /// The method's position among the trait's methods.
    pub index: usize,
    /// The shim's name: `__<trait lowercased>_<method>_shim`.
    pub shim_name: String,
    /// `Trait::method`, for the arity error.
    pub display_name: String,
    /// How the shim reads each argument.
    pub args: Vec<ShimArg>,
    /// Whether the view gets a wrapper for the method.
    pub has_view: bool,
}

/// What `#[miniextendr]` on a trait generates, by name: the type tag, the
/// vtable and view structs, a shim and a vtable entry per instance method
/// (static methods are resolved at compile time), the view's method
/// wrappers and the vtable builder.
pub struct TraitAbiPlan {
    /// `TAG_<TRAIT>` (uppercased).
    pub tag_name: String,
    /// `<Trait>VTable`.
    pub vtable_name: String,
    /// `<Trait>View`.
    pub view_name: String,
    /// `__<trait>_build_vtable` (lowercased).
    pub build_vtable_fn: String,
    /// The path the tag is hashed from: the trait's name alone, so that two
    /// packages declaring the same trait agree.
    pub tag_path: String,
    /// The vtable entries, one per instance method, in order.
    pub methods: Vec<AbiMethod>,
    /// The bounds the shims and the builder put on the implementing type.
    pub extra_bounds: Vec<ExtraBound>,
}

/// The positions of the instance methods among `ms[..n]`, in order.
pub open spec fn instance_positions(ms: Seq<MethodInfo>, n: int) -> Seq<int>
    decreases n,
{
    if n <= 0 || n > ms.len() {
        Seq::empty()
    } else {
        instance_positions(ms, n - 1) + if ms[n - 1].has_self {
            seq![n - 1]
        } else {
            Seq::empty()
        }
    }
}

/// Whether `a` is the vtable entry of `ms[i]` for the trait `trait_name`.
pub open spec fn abi_method_of(a: AbiMethod, trait_name: Seq<char>, ms: Seq<MethodInfo>, i: int) -> bool {
    &&& a.index == i
    &&& a.shim_name@ == "__"@ + str_lower(trait_name) + "_"@ + ms[i].name@ + "_shim"@
    &&& a.display_name@ == trait_name + "::"@ + ms[i].name@
    &&& a.args@ == ms[i].param_types@.map_values(|t: TypeModel| shim_arg_of(t))
    &&& a.has_view == has_view_method(ms[i])
}

/// The bounds the instance methods need, `IntoR` first.
pub open spec fn abi_bounds(ms: Seq<MethodInfo>) -> Seq<ExtraBound> {
    (if exists|k: int| 0 <= k < ms.len() && ms[k].has_self && returns_self(#[trigger] ms[k]) {
        seq![ExtraBound::IntoR]
    } else {
        Seq::empty()
    }) + (if exists|k: int| 0 <= k < ms.len() && ms[k].has_self && takes_self_ref(#[trigger] ms[k]) {
        seq![ExtraBound::TypedExternal]
    } else {
        Seq::empty()
    })
}

/// Whether `p` is the ABI plan of the trait `trait_name` with the methods
/// `ms`.
pub open spec fn trait_abi_spec(p: TraitAbiPlan, trait_name: Seq<char>, ms: Seq<MethodInfo>) -> bool {
    let pos = instance_positions(ms, ms.len() as int);
    &&& p.tag_name@ == "TAG_"@ + str_upper(trait_name)
    &&& p.vtable_name@ == trait_name + "VTable"@
    &&& p.view_name@ == trait_name + "View"@
    &&& p.build_vtable_fn@ == "__"@ + str_lower(trait_name) + "_build_vtable"@
    &&& p.tag_path@ == trait_name
    &&& p.methods@.len() == pos.len()
    &&& forall|k: int| 0 <= k < pos.len() ==> abi_method_of(#[trigger] p.methods@[k], trait_name, ms, pos[k])
    &&& p.extra_bounds@ == abi_bounds(ms)
}

fn shim_arg(t: &TypeModel) -> (r: ShimArg)
    ensures
        r == shim_arg_of(*t),
{
    let (self_ref, mutable) = param_is_self_ref(t);
    if self_ref {
        if mutable {
            ShimArg::SelfRefMut
        } else {
            ShimArg::SelfRef
        }
    } else {
        ShimArg::Plain
    }
}

fn view_method(m: &MethodInfo) -> (r: bool)
    ensures
        r == has_view_method(*m),
{
    let ret = match &m.return_type {
        Some(t) => type_contains_self(t),
        None => false,
    };
    if ret {
        return false;
    }
    let mut j: usize = 0;
    while j < m.param_types.len()
        invariant
            j <= m.param_types@.len(),
            !returns_self(*m),
            forall|q: int| 0 <= q < j ==> !mentions_self(#[trigger] m.param_types@[q]),
        decreases m.param_types@.len() - j,
    {
        if type_contains_self(&m.param_types[j]) {
            return false;
        }
        j = j + 1;
    }
    true
}

fn abi_method(trait_name: &str, lower: &str, m: &MethodInfo, index: usize) -> (r: AbiMethod)
    ensures
        r.index == index,
        r.shim_name@ == "__"@ + lower@ + "_"@ + m.name@ + "_shim"@,
        r.display_name@ == trait_name@ + "::"@ + m.name@,
        r.args@ == m.param_types@.map_values(|t: TypeModel| shim_arg_of(t)),
        r.has_view == has_view_method(*m),
{
    let mut shim_name = concat3("__", lower, "_");
    shim_name.append(m.name.as_str());
    shim_name.append("_shim");
    let display_name = concat3(trait_name, "::", m.name.as_str());
    let mut args: Vec<ShimArg> = Vec::new();
    let mut j: usize = 0;
    while j < m.param_types.len()
        invariant
            j <= m.param_types@.len(),
            args@ == m.param_types@.take(j as int).map_values(|t: TypeModel| shim_arg_of(t)),
        decreases m.param_types@.len() - j,
    {
        args.push(shim_arg(&m.param_types[j]));
        assert(args@ =~= m.param_types@.take(j as int + 1).map_values(|t: TypeModel| shim_arg_of(t)));
        j = j + 1;
    }
    assert(m.param_types@.take(j as int) =~= m.param_types@);
    AbiMethod { index, shim_name, display_name, args, has_view: view_method(m) }
}

/// What `#[miniextendr]` on the trait `trait_name` with the methods
/// `methods` generates (see [`TraitAbiPlan`]).
pub fn trait_abi_plan(trait_name: &str, methods: &[MethodInfo]) -> (r: TraitAbiPlan)
    ensures
        trait_abi_spec(r, trait_name@, methods@),
{
    let upper = str_to_uppercase(trait_name);
    let lower = str_to_lowercase(trait_name);
    let mut entries: Vec<AbiMethod> = Vec::new();
    let mut into_r = false;
    let mut typed_external = false;
    let ghost ms = methods@;
    let mut i: usize = 0;
    while i < methods.len()
        invariant
            i <= ms.len(),
            ms == methods@,
            lower@ == str_lower(trait_name@),
            entries@.len() == instance_positions(ms, i as int).len(),
            forall|k: int|
                0 <= k < entries@.len() ==> abi_method_of(
                    #[trigger] entries@[k],
                    trait_name@,
                    ms,
                    instance_positions(ms, i as int)[k],
                ),
            into_r == exists|k: int| 0 <= k < i && ms[k].has_self && returns_self(#[trigger] ms[k]),
            typed_external == exists|k: int| 0 <= k < i && ms[k].has_self && takes_self_ref(#[trigger] ms[k]),
        decreases ms.len() - i,
    {
        let m = &methods[i];
        let ghost before = instance_positions(ms, i as int);
        if m.has_self {
            let e = abi_method(trait_name, lower.as_str(), m, i);
            entries.push(e);
            let r = match &m.return_type {
                Some(t) => type_contains_self(t),
                None => false,
            };
            if r {
                into_r = true;
            }
            let mut j: usize = 0;
            let mut self_ref = false;
            while j < m.param_types.len()
                invariant
                    j <= m.param_types@.len(),
                    self_ref == exists|q: int| 0 <= q < j && is_self_ref(#[trigger] m.param_types@[q]),
                decreases m.param_types@.len() - j,
            {
                if param_is_self_ref(&m.param_types[j]).0 {
                    self_ref = true;
                }
                j = j + 1;
            }
            if self_ref {
                typed_external = true;
            }
        }
        proof {
            let now = instance_positions(ms, i as int + 1);
            if ms[i as int].has_self {
                assert(now == before.push(i as int));
            } else {
                assert(now == before);
            }
            assert forall|k: int| 0 <= k < entries@.len() implies abi_method_of(
                #[trigger] entries@[k],
                trait_name@,
                ms,
                now[k],
            ) by {
                if k < before.len() {
                    assert(now[k] == before[k]);
                }
            }
        }
        i = i + 1;
    }
    let mut extra_bounds: Vec<ExtraBound> = Vec::new();
    if into_r {
        extra_bounds.push(ExtraBound::IntoR);
    }
    if typed_external {
        extra_bounds.push(ExtraBound::TypedExternal);
    }
    assert(extra_bounds@ =~= abi_bounds(ms));
    TraitAbiPlan {
        tag_name: concat2("TAG_", upper.as_str()),
        vtable_name: concat2(trait_name, "VTable"),
        view_name: concat2(trait_name, "View"),
        build_vtable_fn: concat3("__", lower.as_str(), "_build_vtable"),
        tag_path: owned(trait_name),
        methods: entries,
        extra_bounds,
    }
}

proof fn lemma_instance_positions(ms: Seq<MethodInfo>, n: int)
    requires
        0 <= n <= ms.len(),
    ensures
        forall|k: int|
            0 <= k < instance_positions(ms, n).len() ==> 0 <= #[trigger] instance_positions(ms, n)[k] < n
                && ms[instance_positions(ms, n)[k]].has_self,
        forall|i: int| 0 <= i < n && ms[i].has_self ==> instance_positions(ms, n).contains(i),
    decreases n,
{
    if n > 0 {
        lemma_instance_positions(ms, n - 1);
        let prev = instance_positions(ms, n - 1);
        let now = instance_positions(ms, n);
        assert forall|k: int| 0 <= k < now.len() implies 0 <= #[trigger] now[k] < n && ms[now[k]].has_self by {
            if k < prev.len() {
                assert(now[k] == prev[k]);
            }
        }
        assert forall|i: int| 0 <= i < n && ms[i].has_self implies now.contains(i) by {
            if i < n - 1 {
                assert(prev.contains(i));
                let w = choose|w: int| 0 <= w < prev.len() && prev[w] == i;
                assert(now[w] == prev[w]);
                assert(now[w] == i);
            } else {
                assert(now[now.len() - 1] == i);
            }
        }
    }
}

/// The vtable holds exactly the instance methods: every entry is a method
/// with a receiver, and every method with a receiver has an entry (static
/// methods are resolved at compile time).
pub proof fn lemma_vtable_holds_instance_methods(p: TraitAbiPlan, trait_name: Seq<char>, ms: Seq<MethodInfo>)
    requires
        trait_abi_spec(p, trait_name, ms),
    ensures
        forall|k: int|
            0 <= k < p.methods@.len() ==> (#[trigger] p.methods@[k]).index < ms.len() && ms[p.methods@[k].index as int].has_self,
        forall|i: int| 0 <= i < ms.len() && ms[i].has_self ==> exists|k: int| 0 <= k < p.methods@.len() && #[trigger] p.methods@[k].index == i,
{
    let pos = instance_positions(ms, ms.len() as int);
    lemma_instance_positions(ms, ms.len() as int);
    assert forall|k: int| 0 <= k < p.methods@.len() implies (#[trigger] p.methods@[k]).index < ms.len()
        && ms[p.methods@[k].index as int].has_self by {
        assert(abi_method_of(p.methods@[k], trait_name, ms, pos[k]));
        assert(0 <= pos[k] < ms.len());
    }
    assert forall|i: int| 0 <= i < ms.len() && ms[i].has_self implies exists|k: int|
        0 <= k < p.methods@.len() && #[trigger] p.methods@[k].index == i by {
        assert(pos.contains(i));
        let w = choose|w: int| 0 <= w < pos.len() && pos[w] == i;
        assert(abi_method_of(p.methods@[w], trait_name, ms, pos[w]));
        assert(p.methods@[w].index == i);
    }
}

// ---------------------------------------------------------------------------
// Laws
// ---------------------------------------------------------------------------

proof fn lemma_no_faulty_from(ms: Seq<TraitMethodSig>, from: int)
    requires
        0 <= from <= ms.len(),
    ensures
        first_faulty(ms, from) is None <==> forall|k: int| from <= k < ms.len() ==> method_fault(#[trigger] ms[k]) is None,
    decreases ms.len() - from,
{
    if from < ms.len() {
        lemma_no_faulty_from(ms, from + 1);
    }
}

/// A trait is accepted exactly when it has no generic parameters and each
/// of its methods is accepted on its own: the order of the methods only
/// decides which problem is reported.
pub proof fn lemma_trait_accepted_iff_methods_accepted(t: TraitModel)
    ensures
        reports_trait(t, Ok(())) <==> (!t.has_generics && forall|k: int|
            0 <= k < t.methods@.len() ==> method_fault(#[trigger] t.methods@[k]) is None),
{
    lemma_no_faulty_from(t.methods@, 0);
}

/// `self: &Self` and `self: &mut Self` are accepted like `&self` and
/// `&mut self`, and so is a static method: a method that is neither `async`
/// nor generic is refused only for a receiver that takes `self` by value.
pub proof fn lemma_borrowing_receivers_accepted(m: TraitMethodSig)
    requires
        !m.is_async,
        !m.has_generics,
    ensures
        method_fault(m) is None <==> match m.receiver {
            None => true,
            Some(r) => r.reference || (r.explicit_type && r.ty is Reference),
        },
        method_fault(m) is None || method_fault(m) == Some(MethodFault::ReceiverByValue),
{
}

} // verus!
