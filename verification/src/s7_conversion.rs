//! S7 class conversions (`convert_to` / `convert_from`): the markers
//! (`ConvertTo` / `ConvertFrom` on a wrapped return) and the attributes feed
//! one plan, checked against the method's shape and return type.
use vstd::prelude::*;
use crate::r_class_formatter::{class_ref, class_ref_or_verbatim};
use crate::r_preconditions::opt_view;
use crate::return_wrap::{
    ident_name, ident_text, lemma_resolve_with_attribute, resolve, resolve_plan, ClassSystem, Container, ConversionKind, ReturnWrap,
};
use crate::text::{owned, str_eq};
use crate::types::{GenericArg, Param, SegmentArgs, TypeModel};

verus! {

/// What the S7 conversion of a method reads and writes.
pub struct S7Conversion {
    /// `serialize` is set on the method.
    pub serialize: bool,
    /// `unwrap_in_r` is set on the method.
    pub unwrap_in_r: bool,
    /// The `convert_to` class, if any.
    pub convert_to: Option<String>,
    /// The `convert_from` class, if any.
    pub convert_from: Option<String>,
    /// The method's return wrap, if any.
    pub return_wrap: Option<ReturnWrap>,
}

/// A return wrap as plain values: system, target, containers, marker,
/// conversion.
pub type WrapView = (ClassSystem, Seq<char>, Seq<Container>, bool, Option<ConversionKind>);

/// The view of a return wrap.
pub open spec fn wrap_view(w: ReturnWrap) -> WrapView {
    (w.system, w.target@, w.containers@, w.typed, w.conversion)
}

/// The view of an optional return wrap.
pub open spec fn opt_wrap_view(w: Option<ReturnWrap>) -> Option<WrapView> {
    match w {
        Some(x) => Some(wrap_view(x)),
        None => None,
    }
}

/// The conversion state as plain values: `convert_to`, `convert_from`, wrap.
pub type ConversionView = (Option<Seq<char>>, Option<Seq<char>>, Option<WrapView>);

/// The view of the conversion state.
pub open spec fn conversion_view(c: S7Conversion) -> ConversionView {
    (opt_view(c.convert_to), opt_view(c.convert_from), opt_wrap_view(c.return_wrap))
}

/// The class a `convert_from` source parameter names: through references
/// and `ExternalPtr<..>`, a bare path type's name.
pub open spec fn source_class_of(ty: TypeModel) -> Option<Seq<char>>
    decreases ty,
{
    match ty {
        TypeModel::Reference(_, inner) => source_class_of(*inner),
        TypeModel::Path(segs) => if segs@.len() == 0 {
            None
        } else {
            let seg = segs@[segs@.len() - 1];
            if seg.ident@ == "ExternalPtr"@ {
                match seg.args {
                    SegmentArgs::Angle(args) => if args@.len() > 0 && args@[0] is Type {
                        let inner = args@[0]->Type_0;
                        proof {
                            assert(decreases_to!(ty => inner)) by {
                                assert(decreases_to!(ty => ty->Path_0));
                                assert(decreases_to!(segs => segs@));
                                assert(decreases_to!(segs@ => segs@[segs@.len() - 1]));
                                assert(decreases_to!(seg => seg.args));
                                assert(decreases_to!(seg.args => seg.args->Angle_0));
                                assert(decreases_to!(args => args@));
                                assert(decreases_to!(args@ => args@[0]));
                                assert(decreases_to!(args@[0] => inner));
                            }
                        }
                        source_class_of(inner)
                    } else {
                        None
                    },
                    _ => None,
                }
            } else if seg.args is Bare {
                Some(ident_text(seg.ident@))
            } else {
                None
            }
        },
        _ => None,
    }
}

/// The class a `convert_from` source parameter names.
pub fn source_class(ty: &TypeModel) -> (r: Option<String>)
    ensures
        opt_view(r) == source_class_of(*ty),
    decreases ty,
{
    match ty {
        TypeModel::Reference(_, inner) => source_class(inner),
        TypeModel::Path(segs) => {
            if segs.len() == 0 {
                return None;
            }
            let seg = &segs[segs.len() - 1];
            if str_eq(seg.ident.as_str(), "ExternalPtr") {
                match &seg.args {
                    SegmentArgs::Angle(args) => {
                        if args.len() > 0 {
                            match &args[0] {
                                GenericArg::Type(inner) => {
                                    proof {
                                        assert(decreases_to!(*ty => *inner)) by {
                                            assert(decreases_to!(*ty => (*ty)->Path_0));
                                            assert(decreases_to!(*segs => segs@));
                                            assert(decreases_to!(segs@ => segs@[segs@.len() - 1]));
                                            assert(decreases_to!(*seg => seg.args));
                                            assert(decreases_to!(seg.args => seg.args->Angle_0));
                                            assert(decreases_to!(*args => args@));
                                            assert(decreases_to!(args@ => args@[0]));
                                            assert(decreases_to!(args@[0] => *inner));
                                        }
                                    }
                                    source_class(inner)
                                },
                                GenericArg::Other => None,
                            }
                        } else {
                            None
                        }
                    },
                    _ => None,
                }
            } else {
                match &seg.args {
                    SegmentArgs::Bare => Some(ident_name(seg.ident.as_str())),
                    _ => None,
                }
            }
        },
        _ => None,
    }
}

/// The typed parameters among the first `n`.
pub open spec fn typed_params(inputs: Seq<Param>, n: int) -> Seq<TypeModel>
    decreases n,
{
    if n <= 0 {
        Seq::empty()
    } else {
        let prev = typed_params(inputs, n - 1);
        match inputs[n - 1] {
            Param::Typed { ty, .. } => prev.push(ty),
            Param::Receiver => prev,
        }
    }
}

/// The wrap the conversion works on: the method's own, else the S7 plan of
/// its return type.
pub open spec fn base_wrap(w: Option<ReturnWrap>, output: Option<TypeModel>) -> Result<WrapView, Seq<char>> {
    match w {
        Some(x) => Ok(wrap_view(x)),
        None => match resolve_plan(output, Some(ClassSystem::S7)) {
            Ok(Some(p)) => Ok((p.0, p.1, p.2, p.3, None)),
            Ok(None) => Err(Seq::empty()),
            Err(m) => Err(m),
        },
    }
}

/// The outcome of configuring an S7 conversion: the new state, and the
/// error that refuses the method, if any.
pub open spec fn configured(
    c: S7Conversion,
    output: Option<TypeModel>,
    inputs: Seq<Param>,
    is_static: bool,
    system: ClassSystem,
    type_ident: Seq<char>,
) -> (ConversionView, Result<(), Seq<char>>) {
    let start = conversion_view(c);
    let to = opt_view(c.convert_to);
    let from = opt_view(c.convert_from);
    let marker = match c.return_wrap {
        Some(w) => w.conversion,
        None => None,
    };
    let params = typed_params(inputs, inputs.len() as int);
    let self_name = ident_text(type_ident);
    if marker is None && to is None && from is None {
        (start, Ok(()))
    } else if system != ClassSystem::S7 {
        (start, Err("S7 conversion markers and attributes require an inherent S7 impl"@))
    } else if c.serialize || c.unwrap_in_r {
        (start, Err("S7 class conversion cannot be combined with serialize or unwrap_in_r"@))
    } else if to is Some && from is Some {
        (
            start,
            Err(
                "cannot specify both `convert_from` and `convert_to` on the same method; convert_from is for static methods, convert_to is for instance methods"@,
            ),
        )
    } else {
        let kind = match marker {
            Some(k) => k,
            None => if to is Some {
                ConversionKind::To
            } else {
                ConversionKind::From
            },
        };
        let shape_error: Option<Seq<char>> = match kind {
            ConversionKind::To => if is_static || params.len() != 0 {
                Some("convert_to requires an instance method with no additional parameters"@)
            } else if from is Some {
                Some("ConvertTo disagrees with the convert_from attribute"@)
            } else {
                None
            },
            ConversionKind::From => if !is_static || params.len() != 1 {
                Some("convert_from requires a static method with exactly one source parameter"@)
            } else if to is Some {
                Some("ConvertFrom disagrees with the convert_to attribute"@)
            } else {
                None
            },
        };
        match shape_error {
            Some(m) => (start, Err(m)),
            None => match base_wrap(c.return_wrap, output) {
                Err(m) => (start, Err(m)),
                Ok(w) => {
                    let mid = (to, from, Some(w));
                    if w.0 != ClassSystem::S7 {
                        (mid, Err("S7 conversion cannot select another return class system"@))
                    } else if w.2.contains(Container::Vec) {
                        (mid, Err("S7 conversion returns one class instance, not a vector of class instances"@))
                    } else {
                        match kind {
                            ConversionKind::To => {
                                let target = if w.1 == "Self"@ {
                                    self_name
                                } else {
                                    w.1
                                };
                                if marker is Some && to is Some && to != Some(target) {
                                    (mid, Err("ConvertTo target and convert_to attribute disagree"@))
                                } else {
                                    let new_to = if marker is Some {
                                        target
                                    } else {
                                        to->Some_0
                                    };
                                    (
                                        (Some(new_to), from, Some((w.0, class_ref(new_to), w.2, w.3, Some(kind)))),
                                        Ok(()),
                                    )
                                }
                            },
                            ConversionKind::From => {
                                if w.1 != "Self"@ && w.1 != self_name {
                                    (mid, Err("convert_from must return Self or the enclosing class type"@))
                                } else if marker is Some {
                                    match source_class_of(params[0]) {
                                        None => (
                                            mid,
                                            Err(
                                                "ConvertFrom needs a named source class parameter, such as ExternalPtr<Source> or &Source"@,
                                            ),
                                        ),
                                        Some(s) => {
                                            let source = if s == "Self"@ {
                                                self_name
                                            } else {
                                                s
                                            };
                                            if from is Some && from != Some(source) {
                                                (
                                                    mid,
                                                    Err(
                                                        "ConvertFrom source parameter and convert_from attribute disagree"@,
                                                    ),
                                                )
                                            } else {
                                                (
                                                    (to, Some(source), Some((w.0, "Self"@, w.2, w.3, Some(kind)))),
                                                    Ok(()),
                                                )
                                            }
                                        },
                                    }
                                } else {
                                    ((to, from, Some((w.0, "Self"@, w.2, w.3, Some(kind)))), Ok(()))
                                }
                            },
                        }
                    }
                },
            },
        }
    }
}

fn typed_param_types(inputs: &[Param]) -> (r: Vec<&TypeModel>)
    ensures
        r@.len() == typed_params(inputs@, inputs@.len() as int).len(),
        forall|i: int| 0 <= i < r@.len() ==> *r@[i] == typed_params(inputs@, inputs@.len() as int)[i],
{
    let mut out: Vec<&TypeModel> = Vec::new();
    let mut i: usize = 0;
    while i < inputs.len()
        invariant
            i <= inputs@.len(),
            out@.len() == typed_params(inputs@, i as int).len(),
            forall|k: int| 0 <= k < out@.len() ==> *out@[k] == typed_params(inputs@, i as int)[k],
        decreases inputs@.len() - i,
    {
        match &inputs[i] {
            Param::Typed { ty, .. } => {
                out.push(ty);
            },
            Param::Receiver => {},
        }
        i = i + 1;
    }
    out
}

/// Check and record the S7 conversion of a method: the markers and the
/// attributes must agree with each other, with the class system (S7 only),
/// with the method's shape (an instance method without parameters converts
/// to another class; a static method of one source parameter converts from
/// one) and with its return (one instance of an S7 class). On success the
/// attributes hold the resolved classes and the return wrap its conversion
/// and R target.
pub fn configure(
    conv: &mut S7Conversion,
    output: Option<&TypeModel>,
    inputs: &[Param],
    is_static: bool,
    system: ClassSystem,
    implementing_type: &str,
) -> (r: Result<(), String>)
    ensures
        ({
            let out = configured(
                *old(conv),
                match output {
                    Some(t) => Some(*t),
                    None => None,
                },
                inputs@,
                is_static,
                system,
                implementing_type@,
            );
            &&& conversion_view(*final(conv)) == out.0
            &&& final(conv).serialize == old(conv).serialize
            &&& final(conv).unwrap_in_r == old(conv).unwrap_in_r
            &&& match r {
                Ok(()) => out.1 == Ok::<(), Seq<char>>(()),
                Err(m) => out.1 == Err::<(), Seq<char>>(m@),
            }
        }),
{
    let marker = match &conv.return_wrap {
        Some(w) => w.conversion,
        None => None,
    };
    if marker.is_none() && conv.convert_to.is_none() && conv.convert_from.is_none() {
        return Ok(());
    }
    if system != ClassSystem::S7 {
        return Err(owned("S7 conversion markers and attributes require an inherent S7 impl"));
    }
    if conv.serialize || conv.unwrap_in_r {
        return Err(owned("S7 class conversion cannot be combined with serialize or unwrap_in_r"));
    }
    if conv.convert_to.is_some() && conv.convert_from.is_some() {
        return Err(
            owned(
                "cannot specify both `convert_from` and `convert_to` on the same method; convert_from is for static methods, convert_to is for instance methods",
            ),
        );
    }
    let kind = match marker {
        Some(k) => k,
        None => if conv.convert_to.is_some() {
            ConversionKind::To
        } else {
            ConversionKind::From
        },
    };
    let params = typed_param_types(inputs);
    match kind {
        ConversionKind::To => {
            if is_static || params.len() != 0 {
                return Err(owned("convert_to requires an instance method with no additional parameters"));
            }
            if conv.convert_from.is_some() {
                return Err(owned("ConvertTo disagrees with the convert_from attribute"));
            }
        },
        ConversionKind::From => {
            if !is_static || params.len() != 1 {
                return Err(owned("convert_from requires a static method with exactly one source parameter"));
            }
            if conv.convert_to.is_some() {
                return Err(owned("ConvertFrom disagrees with the convert_to attribute"));
            }
        },
    }
    if conv.return_wrap.is_none() {
        match resolve(output, Some(ClassSystem::S7)) {
            Ok(Some(w)) => {
                conv.return_wrap = Some(w);
            },
            Ok(None) => {
                proof {
                    lemma_resolve_with_attribute(
                        match output {
                            Some(t) => Some(*t),
                            None => None,
                        },
                        ClassSystem::S7,
                    );
                }
                return Err(String::new());
            },
            Err(m) => return Err(m),
        }
    }
    let self_name = ident_name(implementing_type);
    let mut w = match conv.return_wrap.take() {
        Some(w) => w,
        None => return Err(String::new()),
    };
    if w.system != ClassSystem::S7 {
        conv.return_wrap = Some(w);
        return Err(owned("S7 conversion cannot select another return class system"));
    }
    if w.has_vector() {
        conv.return_wrap = Some(w);
        return Err(owned("S7 conversion returns one class instance, not a vector of class instances"));
    }
    match kind {
        ConversionKind::To => {
            let target = if str_eq(w.target.as_str(), "Self") {
                self_name
            } else {
                w.target.clone()
            };
            let new_to: String = if marker.is_some() {
                let disagree = match &conv.convert_to {
                    Some(name) => !str_eq(name.as_str(), target.as_str()),
                    None => false,
                };
                if disagree {
                    conv.return_wrap = Some(w);
                    return Err(owned("ConvertTo target and convert_to attribute disagree"));
                }
                target
            } else {
                match &conv.convert_to {
                    Some(name) => name.clone(),
                    None => {
                        conv.return_wrap = Some(w);
                        return Err(String::new());
                    },
                }
            };
            w.target = class_ref_or_verbatim(new_to.as_str());
            conv.convert_to = Some(new_to);
        },
        ConversionKind::From => {
            if !str_eq(w.target.as_str(), "Self") && !str_eq(w.target.as_str(), self_name.as_str()) {
                conv.return_wrap = Some(w);
                return Err(owned("convert_from must return Self or the enclosing class type"));
            }
            if marker.is_some() {
                let source = match source_class(params[0]) {
                    Some(s) => s,
                    None => {
                        conv.return_wrap = Some(w);
                        return Err(
                            owned(
                                "ConvertFrom needs a named source class parameter, such as ExternalPtr<Source> or &Source",
                            ),
                        );
                    },
                };
                let source = if str_eq(source.as_str(), "Self") {
                    self_name
                } else {
                    source
                };
                let disagree = match &conv.convert_from {
                    Some(name) => !str_eq(name.as_str(), source.as_str()),
                    None => false,
                };
                if disagree {
                    conv.return_wrap = Some(w);
                    return Err(owned("ConvertFrom source parameter and convert_from attribute disagree"));
                }
                conv.convert_from = Some(source);
            }
            w.target = owned("Self");
        },
    }
    w.conversion = Some(kind);
    conv.return_wrap = Some(w);
    Ok(())
}


// ---------------------------------------------------------------------------
// Laws
// ---------------------------------------------------------------------------

/// A conversion that is accepted is recorded on the return wrap: its kind,
/// and as target the resolved class reference for `convert_to`, `Self` for
/// `convert_from`.
pub proof fn lemma_accepted_conversion_recorded(
    c: S7Conversion,
    output: Option<TypeModel>,
    inputs: Seq<Param>,
    is_static: bool,
    system: ClassSystem,
    type_ident: Seq<char>,
)
    requires
        configured(c, output, inputs, is_static, system, type_ident).1 is Ok,
        c.convert_to is Some || c.convert_from is Some || (c.return_wrap matches Some(w) && w.conversion is Some),
    ensures
        ({
            let out = configured(c, output, inputs, is_static, system, type_ident).0;
            &&& out.2 matches Some(w) && w.4 is Some
            &&& out.2->Some_0.4 == Some(ConversionKind::From) ==> out.2->Some_0.1 == "Self"@ && out.1 is Some
            &&& out.2->Some_0.4 == Some(ConversionKind::To) ==> (out.0 matches Some(t) && out.2->Some_0.1 == class_ref(t))
        }),
{
}

} // verus!
