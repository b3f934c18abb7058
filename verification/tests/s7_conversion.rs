use miniextendr_macros::return_wrap::{ClassSystem, Container, ConversionKind, ReturnWrap};
use miniextendr_macros::s7_conversion::{configure, source_class, S7Conversion};
use miniextendr_macros::types::{GenericArg, Param, Segment, SegmentArgs, TypeModel};

fn array_len(len: &syn::Expr) -> Option<usize> {
    match len {
        syn::Expr::Lit(syn::ExprLit { lit: syn::Lit::Int(n), .. }) => n.base10_parse::<usize>().ok(),
        _ => None,
    }
}

fn to_type(ty: &syn::Type) -> TypeModel {
    match ty {
        syn::Type::Path(tp) => TypeModel::Path(
            tp.path
                .segments
                .iter()
                .map(|s| Segment {
                    ident: s.ident.to_string(),
                    args: match &s.arguments {
                        syn::PathArguments::None => SegmentArgs::Bare,
                        syn::PathArguments::AngleBracketed(a) => SegmentArgs::Angle(
                            a.args
                                .iter()
                                .map(|g| match g {
                                    syn::GenericArgument::Type(t) => GenericArg::Type(to_type(t)),
                                    _ => GenericArg::Other,
                                })
                                .collect(),
                        ),
                        syn::PathArguments::Parenthesized(_) => SegmentArgs::Paren,
                    },
                })
                .collect(),
        ),
        syn::Type::Reference(r) => TypeModel::Reference(r.mutability.is_some(), Box::new(to_type(&r.elem))),
        syn::Type::Slice(s) => TypeModel::Slice(Box::new(to_type(&s.elem))),
        syn::Type::Array(a) => TypeModel::Array(Box::new(to_type(&a.elem)), array_len(&a.len)),
        syn::Type::Paren(p) => TypeModel::Paren(Box::new(to_type(&p.elem))),
        syn::Type::Group(g) => TypeModel::Group(Box::new(to_type(&g.elem))),
        syn::Type::Tuple(t) => TypeModel::Tuple(t.elems.iter().map(to_type).collect()),
        _ => TypeModel::Other,
    }
}

fn parse_inputs(s: &str) -> Vec<Param> {
    let signature: syn::Signature = syn::parse_str(&format!("fn test({})", s)).unwrap();
    signature
        .inputs
        .iter()
        .map(|arg| match arg {
            syn::FnArg::Receiver(_) => Param::Receiver,
            syn::FnArg::Typed(pt) => Param::Typed {
                name: match pt.pat.as_ref() {
                    syn::Pat::Ident(pi) => Some(pi.ident.to_string()),
                    _ => None,
                },
                ty: to_type(&pt.ty),
            },
        })
        .collect()
}

fn ret(s: &str) -> Option<TypeModel> {
    match syn::parse_str::<syn::ReturnType>(s).unwrap() {
        syn::ReturnType::Default => None,
        syn::ReturnType::Type(_, ty) => Some(to_type(&ty)),
    }
}

fn conv(to: Option<&str>, from: Option<&str>, wrap: Option<ReturnWrap>) -> S7Conversion {
    S7Conversion {
        serialize: false,
        unwrap_in_r: false,
        convert_to: to.map(|s| s.to_string()),
        convert_from: from.map(|s| s.to_string()),
        return_wrap: wrap,
    }
}

fn s7_wrap(target: &str, kind: Option<ConversionKind>) -> ReturnWrap {
    ReturnWrap {
        system: ClassSystem::S7,
        target: target.to_string(),
        containers: Vec::new(),
        typed: true,
        conversion: kind,
    }
}

fn run(c: &mut S7Conversion, output: &str, sig: &str, is_static: bool, system: ClassSystem) -> Result<(), String> {
    let out = ret(output);
    let inputs = parse_inputs(sig);
    configure(c, out.as_ref(), &inputs, is_static, system, "Point")
}

#[test]
fn nothing_requested_is_left_alone() {
    let mut c = conv(None, None, None);
    assert_eq!(run(&mut c, "-> i32", "&self", false, ClassSystem::R6), Ok(()));
    assert!(c.return_wrap.is_none());
}

#[test]
fn convert_to_attribute_resolves_the_target_class() {
    let mut c = conv(Some("Polar"), None, None);
    assert_eq!(run(&mut c, "-> Polar", "&self", false, ClassSystem::S7), Ok(()));
    let w = c.return_wrap.unwrap();
    assert_eq!(w.target, ".__MX_CLASS_REF_Polar__");
    assert_eq!(w.conversion, Some(ConversionKind::To));
    assert_eq!(c.convert_to.as_deref(), Some("Polar"));
}

#[test]
fn convert_to_marker_names_self_by_the_type() {
    let mut c = conv(None, None, Some(s7_wrap("Self", Some(ConversionKind::To))));
    assert_eq!(run(&mut c, "-> WrapAsS7<Self>", "&self", false, ClassSystem::S7), Ok(()));
    assert_eq!(c.convert_to.as_deref(), Some("Point"));
    assert_eq!(c.return_wrap.unwrap().target, ".__MX_CLASS_REF_Point__");
}

#[test]
fn convert_from_attribute_returns_self() {
    let mut c = conv(None, Some("Polar"), None);
    assert_eq!(run(&mut c, "-> Self", "p: &Polar", true, ClassSystem::S7), Ok(()));
    let w = c.return_wrap.unwrap();
    assert_eq!(w.target, "Self");
    assert_eq!(w.conversion, Some(ConversionKind::From));
    assert_eq!(c.convert_from.as_deref(), Some("Polar"));
}

#[test]
fn convert_from_marker_reads_the_source_parameter() {
    let mut c = conv(None, None, Some(s7_wrap("Point", Some(ConversionKind::From))));
    assert_eq!(run(&mut c, "-> WrapAsS7<Point>", "p: ExternalPtr<Polar>", true, ClassSystem::S7), Ok(()));
    assert_eq!(c.convert_from.as_deref(), Some("Polar"));
    assert_eq!(c.return_wrap.unwrap().target, "Self");
}

#[test]
fn conversion_errors() {
    let mut c = conv(Some("Polar"), None, None);
    assert_eq!(
        run(&mut c, "-> Polar", "&self", false, ClassSystem::R6).unwrap_err(),
        "S7 conversion markers and attributes require an inherent S7 impl"
    );
    let mut c = conv(Some("Polar"), None, None);
    c.serialize = true;
    assert_eq!(
        run(&mut c, "-> Polar", "&self", false, ClassSystem::S7).unwrap_err(),
        "S7 class conversion cannot be combined with serialize or unwrap_in_r"
    );
    let mut c = conv(Some("A"), Some("B"), None);
    assert!(run(&mut c, "-> A", "&self", false, ClassSystem::S7).unwrap_err().starts_with("cannot specify both"));
    let mut c = conv(Some("Polar"), None, None);
    assert_eq!(
        run(&mut c, "-> Polar", "&self, x: i32", false, ClassSystem::S7).unwrap_err(),
        "convert_to requires an instance method with no additional parameters"
    );
    let mut c = conv(None, Some("Polar"), None);
    assert_eq!(
        run(&mut c, "-> Self", "a: &Polar, b: i32", true, ClassSystem::S7).unwrap_err(),
        "convert_from requires a static method with exactly one source parameter"
    );
    let mut c = conv(None, Some("Polar"), Some(s7_wrap("Self", Some(ConversionKind::To))));
    assert_eq!(
        run(&mut c, "-> Self", "&self", false, ClassSystem::S7).unwrap_err(),
        "ConvertTo disagrees with the convert_from attribute"
    );
    let mut c = conv(Some("Polar"), None, Some(ReturnWrap { system: ClassSystem::R6, ..s7_wrap("Polar", None) }));
    assert_eq!(
        run(&mut c, "-> Polar", "&self", false, ClassSystem::S7).unwrap_err(),
        "S7 conversion cannot select another return class system"
    );
    let mut c = conv(Some("Polar"), None, None);
    assert_eq!(
        run(&mut c, "-> Vec<Polar>", "&self", false, ClassSystem::S7).unwrap_err(),
        "S7 conversion returns one class instance, not a vector of class instances"
    );
    let mut c = conv(None, Some("Polar"), None);
    assert_eq!(
        run(&mut c, "-> Other", "p: &Polar", true, ClassSystem::S7).unwrap_err(),
        "convert_from must return Self or the enclosing class type"
    );
    let mut c = conv(None, None, Some(s7_wrap("Self", Some(ConversionKind::From))));
    assert_eq!(
        run(&mut c, "-> Self", "p: Vec<i32>", true, ClassSystem::S7).unwrap_err(),
        "ConvertFrom needs a named source class parameter, such as ExternalPtr<Source> or &Source"
    );
    let mut c = conv(Some("Other"), None, Some(s7_wrap("Self", Some(ConversionKind::To))));
    assert_eq!(
        run(&mut c, "-> Self", "&self", false, ClassSystem::S7).unwrap_err(),
        "ConvertTo target and convert_to attribute disagree"
    );
    let mut c = conv(None, Some("Other"), Some(s7_wrap("Self", Some(ConversionKind::From))));
    assert_eq!(
        run(&mut c, "-> Self", "p: &Polar", true, ClassSystem::S7).unwrap_err(),
        "ConvertFrom source parameter and convert_from attribute disagree"
    );
    let mut c = conv(Some("Polar"), None, None);
    assert_eq!(
        run(&mut c, "", "&self", false, ClassSystem::S7).unwrap_err(),
        "`wrap` requires a named class return value"
    );
}

#[test]
fn source_classes() {
    assert_eq!(source_class(&to_type(&syn::parse_str("&ExternalPtr<Polar>").unwrap())), Some("Polar".to_string()));
    assert_eq!(source_class(&to_type(&syn::parse_str("Polar").unwrap())), Some("Polar".to_string()));
    assert_eq!(source_class(&to_type(&syn::parse_str("Vec<Polar>").unwrap())), None);
    assert_eq!(source_class(&to_type(&syn::parse_str("(Polar,)").unwrap())), None);
    let _ = Container::Vec;
}
