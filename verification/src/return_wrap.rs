//! Explicit class wrapping of a method's return value: a `WrapAs*<T>`
//! marker in the return type, or a `wrap = "..."` attribute, selects the R
//! class system whose constructor wraps the returned pointer.
use vstd::prelude::*;
use crate::text::{concat2, concat3, concat4, concat5, owned, starts_with, str_eq, str_starts_with};
use crate::types::{first_type_arg, first_type_argument, is_unit, is_unit_type, GenericArg, Segment, SegmentArgs, TypeModel};

verus! {

/// The R class systems a class can be generated for.
#[derive(Clone, Copy, Debug, PartialEq, Eq, Structural)]
pub enum ClassSystem {
    Env,
    R6,
    S3,
    S4,
    S7,
    Vctrs,
}

/// The containers a wrapped class value may sit in.
#[derive(Clone, Copy, Debug, PartialEq, Eq, Structural)]
pub enum Container {
    Option,
    Result,
    Vec,
}

/// The direction of an S7 class conversion.
#[derive(Clone, Copy, Debug, PartialEq, Eq, Structural)]
pub enum ConversionKind {
    /// `convert_to`: an instance method that returns another class.
    To,
    /// `convert_from`: a static method that builds the class from another.
    From,
}

/// How a returned value is wrapped in an R class.
#[derive(Clone, Debug)]
pub struct ReturnWrap {
    /// The class system of the constructor.
    pub system: ClassSystem,
    /// The R class (or `Self`).
    pub target: String,
    /// The containers around the class value, outermost first.
    pub containers: Vec<Container>,
    /// Whether the return type spelled a `WrapAs*` marker (the Rust value
    /// is then unwrapped from it).
    pub typed: bool,
    /// The S7 conversion this return takes part in, if any.
    pub conversion: Option<ConversionKind>,
}

// ---------------------------------------------------------------------------
// Markers
// ---------------------------------------------------------------------------

/// The class system a marker name selects.
pub open spec fn marker_of(name: Seq<char>) -> Option<ClassSystem> {
    if name == "WrapAsR6"@ {
        Some(ClassSystem::R6)
    } else if name == "WrapAsS7"@ {
        Some(ClassSystem::S7)
    } else if name == "WrapAsS4"@ {
        Some(ClassSystem::S4)
    } else if name == "WrapAsS3"@ {
        Some(ClassSystem::S3)
    } else if name == "WrapAsEnv"@ {
        Some(ClassSystem::Env)
    } else if name == "WrapAsVctrs"@ {
        Some(ClassSystem::Vctrs)
    } else {
        None
    }
}

/// The class system a marker name selects.
pub fn marker_system(name: &str) -> (r: Option<ClassSystem>)
    ensures
        r == marker_of(name@),
{
    if str_eq(name, "WrapAsR6") {
        Some(ClassSystem::R6)
    } else if str_eq(name, "WrapAsS7") {
        Some(ClassSystem::S7)
    } else if str_eq(name, "WrapAsS4") {
        Some(ClassSystem::S4)
    } else if str_eq(name, "WrapAsS3") {
        Some(ClassSystem::S3)
    } else if str_eq(name, "WrapAsEnv") {
        Some(ClassSystem::Env)
    } else if str_eq(name, "WrapAsVctrs") {
        Some(ClassSystem::Vctrs)
    } else {
        None
    }
}

/// Whether a `WrapAs*` marker occurs anywhere in `ty`.
pub open spec fn marked(ty: TypeModel) -> bool
    decreases ty, 0int,
{
    match ty {
        TypeModel::Path(segs) => segs_marked(segs@, segs@.len() as int),
        TypeModel::Reference(_, inner) => marked(*inner),
        TypeModel::Paren(inner) => marked(*inner),
        TypeModel::Group(inner) => marked(*inner),
        TypeModel::Slice(inner) => marked(*inner),
        TypeModel::Array(inner, _) => marked(*inner),
        TypeModel::Tuple(elems) => elems_marked(elems@, elems@.len() as int),
        TypeModel::Other => false,
    }
}

/// Whether one of the first `n` segments is a marker or holds one in its
/// type arguments.
pub open spec fn segs_marked(segs: Seq<Segment>, n: int) -> bool
    decreases segs, n,
{
    if n <= 0 || n > segs.len() {
        false
    } else {
        segs_marked(segs, n - 1) || marker_of(segs[n - 1].ident@) is Some || match segs[n - 1].args {
            SegmentArgs::Angle(args) => args_marked(args@, args@.len() as int),
            _ => false,
        }
    }
}

/// Whether one of the first `n` generic arguments is a type holding a marker.
pub open spec fn args_marked(args: Seq<GenericArg>, n: int) -> bool
    decreases args, n,
{
    if n <= 0 || n > args.len() {
        false
    } else {
        args_marked(args, n - 1) || match args[n - 1] {
            GenericArg::Type(t) => marked(t),
            GenericArg::Other => false,
        }
    }
}

/// Whether one of the first `n` tuple elements holds a marker.
pub open spec fn elems_marked(elems: Seq<TypeModel>, n: int) -> bool
    decreases elems, n,
{
    if n <= 0 || n > elems.len() {
        false
    } else {
        elems_marked(elems, n - 1) || marked(elems[n - 1])
    }
}

/// Whether a `WrapAs*` marker occurs anywhere in `ty`.
pub fn contains_marker(ty: &TypeModel) -> (r: bool)
    ensures
        r == marked(*ty),
    decreases ty,
{
    match ty {
        TypeModel::Path(segs) => {
            let mut found = false;
            let mut i: usize = 0;
            while i < segs.len()
                invariant
                    i <= segs@.len(),
                    *ty == TypeModel::Path(*segs),
                    found == segs_marked(segs@, i as int),
                decreases segs@.len() - i,
            {
                if !found {
                    let seg = &segs[i];
                    found = marker_system(seg.ident.as_str()).is_some();
                    if !found {
                        match &seg.args {
                            SegmentArgs::Angle(args) => {
                                let mut j: usize = 0;
                                while j < args.len()
                                    invariant
                                        j <= args@.len(),
                                        i < segs@.len(),
                                        *ty == TypeModel::Path(*segs),
                                        segs@[i as int].args == SegmentArgs::Angle(*args),
                                        found == args_marked(args@, j as int),
                                    decreases args@.len() - j,
                                {
                                    if !found {
                                        match &args[j] {
                                            GenericArg::Type(t) => {
                                                proof {
                                                    assert(decreases_to!(*ty => *t)) by {
                                                        assert(decreases_to!(*ty => (*ty)->Path_0));
                                                        assert(decreases_to!(*segs => segs@));
                                                        assert(decreases_to!(segs@ => segs@[i as int]));
                                                        assert(decreases_to!(segs@[i as int] => segs@[i as int].args));
                                                        assert(decreases_to!(segs@[i as int].args => segs@[i as int].args->Angle_0));
                                                        assert(decreases_to!(*args => args@));
                                                        assert(decreases_to!(args@ => args@[j as int]));
                                                        assert(decreases_to!(args@[j as int] => *t));
                                                    }
                                                }
                                                found = contains_marker(t);
                                            },
                                            GenericArg::Other => {},
                                        }
                                    }
                                    j = j + 1;
                                }
                            },
                            _ => {},
                        }
                    }
                }
                i = i + 1;
            }
            found
        },
        TypeModel::Reference(_, inner) => contains_marker(inner),
        TypeModel::Paren(inner) => contains_marker(inner),
        TypeModel::Group(inner) => contains_marker(inner),
        TypeModel::Slice(inner) => contains_marker(inner),
        TypeModel::Array(inner, _) => contains_marker(inner),
        TypeModel::Tuple(elems) => {
            let mut found = false;
            let mut i: usize = 0;
            while i < elems.len()
                invariant
                    i <= elems@.len(),
                    *ty == TypeModel::Tuple(*elems),
                    found == elems_marked(elems@, i as int),
                decreases elems@.len() - i,
            {
                if !found {
                    proof {
                        assert(decreases_to!(*ty => elems@[i as int])) by {
                            assert(decreases_to!(*ty => (*ty)->Tuple_0));
                            assert(decreases_to!(*elems => elems@));
                            assert(decreases_to!(elems@ => elems@[i as int]));
                        }
                    }
                    found = contains_marker(&elems[i]);
                }
                i = i + 1;
            }
            found
        },
        TypeModel::Other => false,
    }
}

// ---------------------------------------------------------------------------
// Resolving the wrap plan
// ---------------------------------------------------------------------------

/// The container a path segment names.
pub open spec fn container_of(name: Seq<char>) -> Option<Container> {
    if name == "Option"@ {
        Some(Container::Option)
    } else if name == "Result"@ {
        Some(Container::Result)
    } else if name == "Vec"@ {
        Some(Container::Vec)
    } else {
        None
    }
}

/// The error type of a `Result` container, refused when it holds a marker
/// or is the unit type.
pub open spec fn result_error_check(args: Seq<GenericArg>) -> Option<Seq<char>> {
    if args.len() > 1 {
        match args[1] {
            GenericArg::Type(e) => if marked(e) {
                Some("WrapAs* belongs on the successful Result payload"@)
            } else if is_unit(e) {
                Some("explicit class wrapping does not support Result<T, ()>; use a non-unit error type"@)
            } else {
                None
            },
            GenericArg::Other => None,
        }
    } else {
        None
    }
}

/// The containers around the class value, outermost first, and the type
/// inside them: `Option`, `Result` and `Vec` are peeled through their first
/// generic argument while it is a type.
pub open spec fn walk(leaf: TypeModel) -> Result<(Seq<Container>, TypeModel), Seq<char>>
    decreases leaf,
{
    match leaf {
        TypeModel::Path(segs) => if segs@.len() == 0 {
            Ok((Seq::empty(), leaf))
        } else {
            let seg = segs@[segs@.len() - 1];
            match container_of(seg.ident@) {
                None => Ok((Seq::empty(), leaf)),
                Some(c) => match seg.args {
                    SegmentArgs::Angle(args) => {
                        let err = if c == Container::Result {
                            result_error_check(args@)
                        } else {
                            None
                        };
                        match err {
                            Some(m) => Err(m),
                            None => if args@.len() > 0 && args@[0] is Type {
                                let inner = args@[0]->Type_0;
                                proof {
                                    assert(decreases_to!(leaf => inner)) by {
                                        assert(decreases_to!(leaf => leaf->Path_0));
                                        assert(decreases_to!(segs => segs@));
                                        assert(decreases_to!(segs@ => segs@[segs@.len() - 1]));
                                        assert(decreases_to!(seg => seg.args));
                                        assert(decreases_to!(seg.args => seg.args->Angle_0));
                                        assert(decreases_to!(args => args@));
                                        assert(decreases_to!(args@ => args@[0]));
                                        assert(decreases_to!(args@[0] => inner));
                                    }
                                }
                                match walk(inner) {
                                    Ok(w) => Ok((seq![c] + w.0, w.1)),
                                    Err(m) => Err(m),
                                }
                            } else {
                                Ok((Seq::empty(), leaf))
                            },
                        }
                    },
                    _ => Ok((Seq::empty(), leaf)),
                },
            }
        },
        _ => Ok((Seq::empty(), leaf)),
    }
}

/// The container shapes that can be wrapped: `T`, `Option<T>`,
/// `Result<T, E>`, `Vec<T>`, `Option<Vec<T>>`, `Result<Vec<T>, E>`.
pub open spec fn supported_shape(cs: Seq<Container>) -> bool {
    ||| cs.len() == 0
    ||| cs == seq![Container::Option]
    ||| cs == seq![Container::Result]
    ||| cs == seq![Container::Vec]
    ||| cs == seq![Container::Option, Container::Vec]
    ||| cs == seq![Container::Result, Container::Vec]
}

/// The name of an identifier, without a raw `r#` prefix.
pub open spec fn ident_text(id: Seq<char>) -> Seq<char> {
    if starts_with(id, "r#"@) {
        id.skip(2)
    } else {
        id
    }
}

/// The last segment of a path type, if it has one.
pub open spec fn last_seg(ty: TypeModel) -> Option<Segment> {
    match ty {
        TypeModel::Path(segs) => if segs@.len() > 0 {
            Some(segs@[segs@.len() - 1])
        } else {
            None
        },
        _ => None,
    }
}

/// The wrap plan of a return type: class system, target class, containers
/// and whether a marker was spelled; `Ok(None)` when nothing is wrapped, an
/// error message when the spelling is refused.
pub open spec fn resolve_plan(output: Option<TypeModel>, attribute: Option<ClassSystem>) -> Result<
    Option<(ClassSystem, Seq<char>, Seq<Container>, bool)>,
    Seq<char>,
> {
    match output {
        None => if attribute is Some {
            Err("`wrap` requires a named class return value"@)
        } else {
            Ok(None)
        },
        Some(ty) => if attribute is None && !marked(ty) {
            Ok(None)
        } else {
            match walk(ty) {
                Err(m) => Err(m),
                Ok(w) => {
                    let containers = w.0;
                    let leaf = w.1;
                    if !supported_shape(containers) {
                        Err(
                            "explicit class wrapping supports T, Option<T>, Result<T, E>, Vec<T>, Option<Vec<T>>, or Result<Vec<T>, E>"@,
                        )
                    } else {
                        let marker = match last_seg(leaf) {
                            Some(seg) => match marker_of(seg.ident@) {
                                Some(s) => Some((s, seg)),
                                None => None,
                            },
                            None => None,
                        };
                        let chosen: Result<(ClassSystem, TypeModel), Seq<char>> = match marker {
                            Some((s, seg)) => if attribute is Some && attribute != Some(s) {
                                Err("the WrapAs* marker and `wrap` attribute select different class systems"@)
                            } else {
                                match first_type_arg(seg) {
                                    None => Err("WrapAs* requires one class type argument"@),
                                    Some(inner) => if !(seg.args matches SegmentArgs::Angle(a) && a@.len() == 1) {
                                        Err("WrapAs* requires exactly one class type argument"@)
                                    } else {
                                        Ok((s, inner))
                                    },
                                }
                            },
                            None => match attribute {
                                Some(a) => Ok((a, leaf)),
                                None => Err(
                                    "place WrapAs* directly around the class payload, inside Option, Result, or Vec"@,
                                ),
                            },
                        };
                        match chosen {
                            Err(m) => Err(m),
                            Ok(c) => match last_seg(c.1) {
                                None => Err("explicit wrapping requires an owned, named class type"@),
                                Some(seg) => if !(seg.args is Bare) || marked(c.1) {
                                    Err(
                                        "WrapAs* must be closest to the named class type; put containers and visibility outside it"@,
                                    )
                                } else {
                                    Ok(Some((c.0, ident_text(seg.ident@), containers, marker is Some)))
                                },
                            },
                        }
                    }
                },
            }
        },
    }
}

/// The plan a wrap holds.
pub open spec fn plan_of(w: ReturnWrap) -> (ClassSystem, Seq<char>, Seq<Container>, bool) {
    (w.system, w.target@, w.containers@, w.typed)
}

fn container_named(name: &str) -> (r: Option<Container>)
    ensures
        r == container_of(name@),
{
    if str_eq(name, "Option") {
        Some(Container::Option)
    } else if str_eq(name, "Result") {
        Some(Container::Result)
    } else if str_eq(name, "Vec") {
        Some(Container::Vec)
    } else {
        None
    }
}

fn check_result_error(args: &Vec<GenericArg>) -> (r: Option<String>)
    ensures
        match r {
            Some(m) => result_error_check(args@) == Some(m@),
            None => result_error_check(args@) is None,
        },
{
    if args.len() > 1 {
        match &args[1] {
            GenericArg::Type(e) => {
                if contains_marker(e) {
                    Some(owned("WrapAs* belongs on the successful Result payload"))
                } else if is_unit_type(e) {
                    Some(owned("explicit class wrapping does not support Result<T, ()>; use a non-unit error type"))
                } else {
                    None
                }
            },
            GenericArg::Other => None,
        }
    } else {
        None
    }
}

/// Peel the containers off `leaf`.
fn walk_containers(leaf: &TypeModel) -> (r: Result<(Vec<Container>, &TypeModel), String>)
    ensures
        match r {
            Ok(w) => walk(*leaf) == Ok::<(Seq<Container>, TypeModel), Seq<char>>((w.0@, *w.1)),
            Err(m) => walk(*leaf) == Err::<(Seq<Container>, TypeModel), Seq<char>>(m@),
        },
    decreases leaf,
{
    match leaf {
        TypeModel::Path(segs) => {
            if segs.len() == 0 {
                return Ok((Vec::new(), leaf));
            }
            let seg = &segs[segs.len() - 1];
            match container_named(seg.ident.as_str()) {
                None => Ok((Vec::new(), leaf)),
                Some(c) => match &seg.args {
                    SegmentArgs::Angle(args) => {
                        let err = if c == Container::Result {
                            check_result_error(args)
                        } else {
                            None
                        };
                        match err {
                            Some(m) => Err(m),
                            None => {
                                if args.len() > 0 {
                                    match &args[0] {
                                        GenericArg::Type(inner) => {
                                            proof {
                                                assert(decreases_to!(*leaf => *inner)) by {
                                                    assert(decreases_to!(*leaf => (*leaf)->Path_0));
                                                    assert(decreases_to!(*segs => segs@));
                                                    assert(decreases_to!(segs@ => segs@[segs@.len() - 1]));
                                                    assert(decreases_to!(*seg => seg.args));
                                                    assert(decreases_to!(seg.args => seg.args->Angle_0));
                                                    assert(decreases_to!(*args => args@));
                                                    assert(decreases_to!(args@ => args@[0]));
                                                    assert(decreases_to!(args@[0] => *inner));
                                                }
                                            }
                                            match walk_containers(inner) {
                                                Ok((rest, l)) => {
                                                    let mut cs: Vec<Container> = Vec::new();
                                                    cs.push(c);
                                                    let ghost rv = rest@;
                                                    let mut rest = rest;
                                                    cs.append(&mut rest);
                                                    assert(cs@ =~= seq![c] + rv);
                                                    Ok((cs, l))
                                                },
                                                Err(m) => Err(m),
                                            }
                                        },
                                        GenericArg::Other => Ok((Vec::new(), leaf)),
                                    }
                                } else {
                                    Ok((Vec::new(), leaf))
                                }
                            },
                        }
                    },
                    _ => Ok((Vec::new(), leaf)),
                },
            }
        },
        _ => Ok((Vec::new(), leaf)),
    }
}

fn shape_supported(cs: &Vec<Container>) -> (r: bool)
    ensures
        r == supported_shape(cs@),
{
    let n = cs.len();
    let r = if n == 0 {
        true
    } else if n == 1 {
        true
    } else if n == 2 {
        cs[1] == Container::Vec && cs[0] != Container::Vec
    } else {
        false
    };
    proof {
        if n == 1 {
            assert(cs@ =~= seq![cs@[0]]);
        }
        if n == 2 {
            assert(cs@ =~= seq![cs@[0], cs@[1]]);
        }
    }
    r
}

fn last_segment_ref(ty: &TypeModel) -> (r: Option<&Segment>)
    ensures
        match r {
            Some(s) => last_seg(*ty) == Some(*s),
            None => last_seg(*ty) is None,
        },
{
    match ty {
        TypeModel::Path(segs) => {
            if segs.len() > 0 {
                Some(&segs[segs.len() - 1])
            } else {
                None
            }
        },
        _ => None,
    }
}

/// The name of an identifier, without a raw `r#` prefix.
pub fn ident_name(id: &str) -> (r: String)
    ensures
        r@ == ident_text(id@),
{
    if str_starts_with(id, "r#") {
        proof {
            reveal_strlit("r#");
        }
        owned(id.substring_char(2, id.unicode_len()))
    } else {
        owned(id)
    }
}

/// The wrap plan of a return type (`None` for `-> ()` written as no return
/// type), or why the spelling is refused. The plan says how the returned
/// value is wrapped; the Rust return type itself loses the marker around
/// the class payload.
pub fn resolve(output: Option<&TypeModel>, attribute: Option<ClassSystem>) -> (r: Result<Option<ReturnWrap>, String>)
    ensures
        match r {
            Ok(Some(w)) => resolve_plan(
                match output {
                    Some(t) => Some(*t),
                    None => None,
                },
                attribute,
            ) == Ok::<Option<(ClassSystem, Seq<char>, Seq<Container>, bool)>, Seq<char>>(Some(plan_of(w)))
                && w.conversion is None,
            Ok(None) => resolve_plan(
                match output {
                    Some(t) => Some(*t),
                    None => None,
                },
                attribute,
            ) == Ok::<Option<(ClassSystem, Seq<char>, Seq<Container>, bool)>, Seq<char>>(None),
            Err(m) => resolve_plan(
                match output {
                    Some(t) => Some(*t),
                    None => None,
                },
                attribute,
            ) == Err::<Option<(ClassSystem, Seq<char>, Seq<Container>, bool)>, Seq<char>>(m@),
        },
{
    let ty = match output {
        None => {
            if attribute.is_some() {
                return Err(owned("`wrap` requires a named class return value"));
            }
            return Ok(None);
        },
        Some(t) => t,
    };
    if attribute.is_none() && !contains_marker(ty) {
        return Ok(None);
    }
    let (containers, leaf) = match walk_containers(ty) {
        Ok(w) => w,
        Err(m) => return Err(m),
    };
    if !shape_supported(&containers) {
        return Err(
            owned(
                "explicit class wrapping supports T, Option<T>, Result<T, E>, Vec<T>, Option<Vec<T>>, or Result<Vec<T>, E>",
            ),
        );
    }
    let marker: Option<(ClassSystem, &Segment)> = match last_segment_ref(leaf) {
        Some(seg) => match marker_system(seg.ident.as_str()) {
            Some(s) => Some((s, seg)),
            None => None,
        },
        None => None,
    };
    let typed = marker.is_some();
    let (system, payload): (ClassSystem, &TypeModel) = match marker {
        Some((s, seg)) => {
            if attribute.is_some() && attribute != Some(s) {
                return Err(owned("the WrapAs* marker and `wrap` attribute select different class systems"));
            }
            let inner = match first_type_argument(seg) {
                Some(t) => t,
                None => return Err(owned("WrapAs* requires one class type argument")),
            };
            let exactly_one = match &seg.args {
                SegmentArgs::Angle(a) => a.len() == 1,
                _ => false,
            };
            if !exactly_one {
                return Err(owned("WrapAs* requires exactly one class type argument"));
            }
            (s, inner)
        },
        None => match attribute {
            Some(a) => (a, leaf),
            None => {
                return Err(
                    owned("place WrapAs* directly around the class payload, inside Option, Result, or Vec"),
                );
            },
        },
    };
    let seg = match last_segment_ref(payload) {
        Some(s) => s,
        None => return Err(owned("explicit wrapping requires an owned, named class type")),
    };
    let bare = match &seg.args {
        SegmentArgs::Bare => true,
        _ => false,
    };
    if !bare || contains_marker(payload) {
        return Err(
            owned("WrapAs* must be closest to the named class type; put containers and visibility outside it"),
        );
    }
    let target = ident_name(seg.ident.as_str());
    Ok(Some(ReturnWrap { system, target, containers, typed, conversion: None }))
}

// ---------------------------------------------------------------------------
// The R expression
// ---------------------------------------------------------------------------

/// The constructor call of `system` for class `target` around `value`.
pub open spec fn wrap_text(system: ClassSystem, target: Seq<char>, value: Seq<char>) -> Seq<char> {
    match system {
        ClassSystem::R6 => target + "$new(.ptr = "@ + value + ")"@,
        ClassSystem::S7 => target + "(.ptr = "@ + value + ")"@,
        ClassSystem::S4 => "methods::new(\""@ + target + "\", ptr = "@ + value + ")"@,
        ClassSystem::S3 | ClassSystem::Env => "structure("@ + value + ", class = \""@ + target + "\")"@,
        ClassSystem::Vctrs => "structure("@ + value + ", class = unique(c(\""@ + target + "\", class("@ + value
            + "))))"@,
    }
}

/// The R expression that wraps `value`: the constructor around it, mapped
/// over a list for a `Vec` container, and `NULL` passed through for an
/// outer `Option`. `Self` names `self_type` when given.
pub open spec fn wrap_expression(w: ReturnWrap, value: Seq<char>, self_type: Option<Seq<char>>) -> Seq<char> {
    let target = if w.target@ == "Self"@ {
        match self_type {
            Some(t) => t,
            None => "Self"@,
        }
    } else {
        w.target@
    };
    let result = if w.containers@.contains(Container::Vec) {
        "lapply("@ + value + ", function(.item) "@ + wrap_text(w.system, target, ".item"@) + ")"@
    } else {
        wrap_text(w.system, target, value)
    };
    if w.containers@.len() > 0 && w.containers@[0] == Container::Option {
        "if (is.null("@ + value + ")) NULL else "@ + result
    } else {
        result
    }
}

fn wrap_call(system: ClassSystem, target: &str, value: &str) -> (r: String)
    ensures
        r@ == wrap_text(system, target@, value@),
{
    match system {
        ClassSystem::R6 => concat4(target, "$new(.ptr = ", value, ")"),
        ClassSystem::S7 => concat4(target, "(.ptr = ", value, ")"),
        ClassSystem::S4 => concat5("methods::new(\"", target, "\", ptr = ", value, ")"),
        ClassSystem::S3 | ClassSystem::Env => concat5("structure(", value, ", class = \"", target, "\")"),
        ClassSystem::Vctrs => {
            let head = concat5("structure(", value, ", class = unique(c(\"", target, "\", class(");
            concat3(head.as_str(), value, "))))")
        },
    }
}

fn has_vec(cs: &Vec<Container>) -> (r: bool)
    ensures
        r == cs@.contains(Container::Vec),
{
    let mut i: usize = 0;
    while i < cs.len()
        invariant
            i <= cs@.len(),
            forall|j: int| 0 <= j < i ==> cs@[j] != Container::Vec,
        decreases cs@.len() - i,
    {
        if cs[i] == Container::Vec {
            assert(cs@[i as int] == Container::Vec);
            return true;
        }
        i = i + 1;
    }
    false
}

impl ReturnWrap {
    /// Whether the class values come in a vector.
    pub fn has_vector(&self) -> (r: bool)
        ensures
            r == self.containers@.contains(Container::Vec),
    {
        has_vec(&self.containers)
    }

    /// The R expression that wraps `value` in the chosen class.
    pub fn r_expression(&self, value: &str, self_type: Option<&str>) -> (r: String)
        ensures
            r@ == wrap_expression(
                *self,
                value@,
                match self_type {
                    Some(t) => Some(t@),
                    None => None,
                },
            ),
    {
        let target: &str = if str_eq(self.target.as_str(), "Self") {
            match self_type {
                Some(t) => t,
                None => "Self",
            }
        } else {
            self.target.as_str()
        };
        let result = if has_vec(&self.containers) {
            let inner = wrap_call(self.system, target, ".item");
            concat5("lapply(", value, ", function(.item) ", inner.as_str(), ")")
        } else {
            wrap_call(self.system, target, value)
        };
        if self.containers.len() > 0 && self.containers[0] == Container::Option {
            concat4("if (is.null(", value, ")) NULL else ", result.as_str())
        } else {
            result
        }
    }
}


// ---------------------------------------------------------------------------
// Laws
// ---------------------------------------------------------------------------

/// A resolved plan wraps one of the supported container shapes, and with a
/// `wrap` attribute it uses the attribute's class system (a marker that
/// disagrees is refused).
pub proof fn lemma_resolved_plan(output: Option<TypeModel>, attribute: Option<ClassSystem>)
    ensures
        resolve_plan(output, attribute) matches Ok(Some(p)) ==> supported_shape(p.2) && (attribute matches Some(s)
            ==> p.0 == s),
{
}

/// With a class system chosen, a return value is always wrapped or refused,
/// never left alone.
pub proof fn lemma_resolve_with_attribute(output: Option<TypeModel>, s: ClassSystem)
    ensures
        resolve_plan(output, Some(s)) != Ok::<Option<(ClassSystem, Seq<char>, Seq<Container>, bool)>, Seq<char>>(
            None,
        ),
{
}

/// An outer `Option` passes `NULL` through unwrapped; a `Vec` is wrapped
/// element by element.
pub proof fn lemma_wrap_expression_containers(w: ReturnWrap, value: Seq<char>, self_type: Option<Seq<char>>)
    ensures
        w.containers@.len() > 0 && w.containers@[0] == Container::Option ==> starts_with(
            wrap_expression(w, value, self_type),
            "if (is.null("@ + value + ")) NULL else "@,
        ),
        !(w.containers@.len() > 0 && w.containers@[0] == Container::Option) && w.containers@.contains(Container::Vec)
            ==> starts_with(wrap_expression(w, value, self_type), "lapply("@ + value + ", function(.item) "@),
{
    let pre1 = "if (is.null("@ + value + ")) NULL else "@;
    let pre2 = "lapply("@ + value + ", function(.item) "@;
    let e = wrap_expression(w, value, self_type);
    if w.containers@.len() > 0 && w.containers@[0] == Container::Option {
        assert(e.take(pre1.len() as int) =~= pre1);
    } else if w.containers@.contains(Container::Vec) {
        assert(e.take(pre2.len() as int) =~= pre2);
    }
}

} // verus!
