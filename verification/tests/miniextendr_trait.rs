use miniextendr_macros::miniextendr_trait::{
    compute_extra_bounds, extract_method_info, param_is_self_ref, trait_abi_plan, type_contains_self, validate_trait,
    ExtraBound, MethodFault, ShimArg, TraitAbiPlan, SelfReceiver, TraitError, TraitMethodSig, TraitModel,
};
use miniextendr_macros::types::{GenericArg, Param, Segment, SegmentArgs, TypeModel};

fn array_len(len: &syn::Expr) -> Option<usize> {
    match len {
        syn::Expr::Lit(syn::ExprLit { lit: syn::Lit::Int(n), .. }) => n.base10_parse::<usize>().ok(),
        _ => None,
    }
}

fn to_type(ty: &syn::Type) -> TypeModel {
    match ty {
        syn::Type::Path(tp) => TypeModel::Path(
            tp.path
                .segments
                .iter()
                .map(|s| Segment {
                    ident: s.ident.to_string(),
                    args: match &s.arguments {
                        syn::PathArguments::None => SegmentArgs::Bare,
                        syn::PathArguments::AngleBracketed(a) => SegmentArgs::Angle(
                            a.args
                                .iter()
                                .map(|g| match g {
                                    syn::GenericArgument::Type(t) => GenericArg::Type(to_type(t)),
                                    _ => GenericArg::Other,
                                })
                                .collect(),
                        ),
                        syn::PathArguments::Parenthesized(_) => SegmentArgs::Paren,
                    },
                })
                .collect(),
        ),
        syn::Type::Reference(r) => TypeModel::Reference(r.mutability.is_some(), Box::new(to_type(&r.elem))),
        syn::Type::Slice(s) => TypeModel::Slice(Box::new(to_type(&s.elem))),
        syn::Type::Array(a) => TypeModel::Array(Box::new(to_type(&a.elem)), array_len(&a.len)),
        syn::Type::Paren(p) => TypeModel::Paren(Box::new(to_type(&p.elem))),
        syn::Type::Group(g) => TypeModel::Group(Box::new(to_type(&g.elem))),
        syn::Type::Tuple(t) => TypeModel::Tuple(t.elems.iter().map(to_type).collect()),
        _ => TypeModel::Other,
    }
}

fn ty(s: &str) -> TypeModel {
    to_type(&syn::parse_str::<syn::Type>(s).unwrap())
}

fn method_model(m: &syn::TraitItemFn) -> TraitMethodSig {
    let sig = &m.sig;
    let receiver = match sig.inputs.first() {
        Some(syn::FnArg::Receiver(r)) => Some(SelfReceiver {
            reference: r.reference.is_some(),
            mutability: r.mutability.is_some(),
            explicit_type: r.colon_token.is_some(),
            ty: to_type(&r.ty),
        }),
        _ => None,
    };
    let params = sig
        .inputs
        .iter()
        .filter_map(|arg| match arg {
            syn::FnArg::Receiver(_) => None,
            syn::FnArg::Typed(pt) => Some(Param::Typed {
                name: match pt.pat.as_ref() {
                    syn::Pat::Ident(pi) => Some(pi.ident.to_string()),
                    _ => None,
                },
                ty: to_type(&pt.ty),
            }),
        })
        .collect();
    TraitMethodSig {
        name: sig.ident.to_string(),
        is_async: sig.asyncness.is_some(),
        has_generics: !sig.generics.params.is_empty(),
        receiver,
        params,
        output: match &sig.output {
            syn::ReturnType::Default => None,
            syn::ReturnType::Type(_, t) => Some(to_type(t)),
        },
        has_default: m.default.is_some(),
    }
}

fn trait_model(item: &syn::ItemTrait) -> TraitModel {
    TraitModel {
        name: item.ident.to_string(),
        has_generics: !item.generics.params.is_empty(),
        methods: item
            .items
            .iter()
            .filter_map(|i| match i {
                syn::TraitItem::Fn(m) => Some(method_model(m)),
                _ => None,
            })
            .collect(),
    }
}

/// Parse a trait and validate it, with the diagnostic of a refusal.
fn validate_trait_str(src: &str) -> Result<(), String> {
    let item: syn::ItemTrait = syn::parse_str(src).unwrap();
    validate_trait(&trait_model(&item)).map_err(|e| e.message())
}

fn method_info(src: &str) -> miniextendr_macros::miniextendr_trait::MethodInfo {
    let m: syn::TraitItemFn = syn::parse_str(src).unwrap();
    extract_method_info(method_model(&m))
}

// Trait-level validation

#[test]
fn trait_accepts_basic_trait() {
    let result = validate_trait_str("pub trait Counter { fn value(&self) -> i32; fn increment(&mut self); }");
    assert!(result.is_ok());
}

#[test]
fn trait_accepts_private_trait() {
    let result = validate_trait_str("trait Internal { fn get(&self) -> i32; }");
    assert!(result.is_ok());
}

#[test]
fn trait_rejects_generic_parameters() {
    let result = validate_trait_str("pub trait Container<T> { fn get(&self) -> T; }");
    let err = result.unwrap_err();
    assert!(err.contains("cannot have generic parameters"));
}

#[test]
fn trait_accepts_lifetime_bounds() {
    // Lifetime parameters count as generic parameters.
    let result = validate_trait_str("pub trait Borrower<'a> { fn borrow(&self) -> &'a str; }");
    assert!(result.is_err());
}

// Method-level validation

#[test]
fn method_accepts_immutable_self() {
    let result = validate_trait_str("pub trait Getter { fn get(&self) -> i32; }");
    assert!(result.is_ok());
}

#[test]
fn method_accepts_mutable_self() {
    let result = validate_trait_str("pub trait Setter { fn set(&mut self, value: i32); }");
    assert!(result.is_ok());
}

#[test]
fn method_accepts_static_methods() {
    let result = validate_trait_str("pub trait Factory { fn create() -> Self; fn default_value() -> i32; }");
    assert!(result.is_ok());
}

#[test]
fn method_accepts_associated_constants() {
    let result = validate_trait_str("pub trait Constants { const MAX_VALUE: i32; fn get(&self) -> i32; }");
    assert!(result.is_ok());
}

#[test]
fn method_accepts_default_impl() {
    let result = validate_trait_str(
        "pub trait Defaulted { fn value(&self) -> i32; fn is_zero(&self) -> bool { self.value() == 0 } }",
    );
    assert!(result.is_ok());
}

#[test]
fn method_rejects_self_by_value() {
    let result = validate_trait_str("pub trait Consumer { fn consume(self) -> i32; }");
    let err = result.unwrap_err();
    assert!(err.contains("receiver must be `&self` or `&mut self`"));
}

#[test]
fn method_rejects_async() {
    let result = validate_trait_str("pub trait AsyncTrait { async fn fetch(&self) -> i32; }");
    let err = result.unwrap_err();
    assert!(err.contains("cannot be async"));
}

#[test]
fn method_rejects_generic_parameters() {
    let result = validate_trait_str("pub trait Generic { fn convert<T>(&self, value: T) -> T; }");
    let err = result.unwrap_err();
    assert!(err.contains("cannot have generic parameters"));
}

#[test]
fn method_accepts_explicit_self_ref() {
    let result = validate_trait_str("pub trait ExplicitSelf { fn method(self: &Self) -> i32; }");
    assert!(result.is_ok(), "self: &Self should be accepted");
}

#[test]
fn method_accepts_explicit_self_mut_ref() {
    let result = validate_trait_str("pub trait ExplicitSelfMut { fn method(self: &mut Self) -> i32; }");
    assert!(result.is_ok(), "self: &mut Self should be accepted");
}

#[test]
fn method_rejects_box_self() {
    let result = validate_trait_str("pub trait BoxSelf { fn method(self: Box<Self>) -> i32; }");
    let err = result.unwrap_err();
    assert!(
        err.contains("receiver must be `&self` or `&mut self`"),
        "unexpected error: {}",
        err
    );
}

#[test]
fn trait_errors_name_trait_and_method() {
    assert_eq!(
        validate_trait_str("pub trait T { fn ok(&self); async fn fetch(&self); fn take(self); }").unwrap_err(),
        "#[miniextendr] trait `T::fetch` cannot be async"
    );
    assert_eq!(
        validate_trait_str("pub trait T { fn take(self); }").unwrap_err(),
        "#[miniextendr] trait method `T::take` receiver must be `&self` or `&mut self`, not `self` by value"
    );
    assert_eq!(
        validate_trait_str("pub trait T<U> { async fn fetch(&self); }").unwrap_err(),
        "#[miniextendr] traits cannot have generic parameters"
    );
    let item: syn::ItemTrait = syn::parse_str("pub trait T { fn g<X>(&self); }").unwrap();
    match validate_trait(&trait_model(&item)) {
        Err(TraitError::Method { fault, trait_name, method }) => {
            assert_eq!(fault, MethodFault::Generic);
            assert_eq!(trait_name, "T");
            assert_eq!(method, "g");
        }
        other => panic!("unexpected: {other:?}"),
    }
}

// What the generator reads of a method

#[test]
fn extract_method_info_captures_name() {
    let info = method_info("fn my_method(&self) -> i32;");
    assert_eq!(info.name, "my_method");
}

#[test]
fn extract_method_info_detects_self() {
    let info = method_info("fn method(&self) -> i32;");
    assert!(info.has_self);
    let info = method_info("fn static_method() -> i32;");
    assert!(!info.has_self);
}

#[test]
fn extract_method_info_detects_mutability() {
    let info = method_info("fn get(&self) -> i32;");
    assert!(!info.is_mut);
    let info = method_info("fn set(&mut self, value: i32);");
    assert!(info.is_mut);
}

#[test]
fn extract_method_info_extracts_params() {
    let info = method_info("fn add(&mut self, a: i32, b: String);");
    assert_eq!(info.param_names.len(), 2);
    assert_eq!(info.param_names[0], "a");
    assert_eq!(info.param_names[1], "b");
    assert_eq!(info.param_types.len(), 2);
}

#[test]
fn extract_method_info_detects_default() {
    let info = method_info("fn required(&self) -> i32;");
    assert!(!info.has_default);
    let info = method_info("fn defaulted(&self) -> i32 { 42 }");
    assert!(info.has_default);
}

#[test]
fn extract_method_info_names_patterns_by_position() {
    let info = method_info("fn f(&self, (a, b): (i32, i32), c: i32, _: u8);");
    assert_eq!(info.param_names, vec!["arg0".to_string(), "c".to_string(), "arg2".to_string()]);
    let info = method_info("fn f(&self) -> ();");
    assert!(info.return_type.is_none());
    let info = method_info("fn f(&self) -> Vec<Self>;");
    assert!(info.return_type.is_some());
}

#[test]
fn self_detection() {
    assert!(type_contains_self(&ty("Self")));
    assert!(type_contains_self(&ty("Option<Self>")));
    assert!(type_contains_self(&ty("Vec<(i32, &Self)>")));
    assert!(type_contains_self(&ty("[Self; 2]")));
    assert!(!type_contains_self(&ty("i32")));
    assert!(!type_contains_self(&ty("Vec<String>")));
    assert_eq!(param_is_self_ref(&ty("&Self")), (true, false));
    assert_eq!(param_is_self_ref(&ty("&mut Self")), (true, true));
    assert_eq!(param_is_self_ref(&ty("Self")), (false, false));
    assert_eq!(param_is_self_ref(&ty("&mut Option<Self>")), (false, false));
}

#[test]
fn extra_bounds_follow_the_methods() {
    let infos = |srcs: &[&str]| -> Vec<_> { srcs.iter().map(|s| method_info(s)).collect() };
    assert_eq!(compute_extra_bounds(&infos(&["fn get(&self) -> i32;"])), vec![]);
    assert_eq!(
        compute_extra_bounds(&infos(&["fn make() -> Option<Self>;"])),
        vec![ExtraBound::IntoR]
    );
    assert_eq!(
        compute_extra_bounds(&infos(&["fn eq(&self, other: &Self) -> bool;", "fn make() -> Self;"])),
        vec![ExtraBound::IntoR, ExtraBound::TypedExternal]
    );
    assert_eq!(
        compute_extra_bounds(&infos(&["fn merge(&mut self, other: &mut Self);"])),
        vec![ExtraBound::TypedExternal]
    );
}

/// The ABI plan of a trait written in source.
fn abi(src: &str) -> TraitAbiPlan {
    let item: syn::ItemTrait = syn::parse_str(src).unwrap();
    let infos: Vec<_> = trait_model(&item).methods.into_iter().map(extract_method_info).collect();
    trait_abi_plan(&item.ident.to_string(), &infos)
}

fn shim_names(p: &TraitAbiPlan) -> Vec<String> {
    p.methods.iter().map(|m| m.shim_name.clone()).collect()
}

#[test]
fn generate_produces_tag_constant() {
    let p = abi("pub trait Counter { fn value(&self) -> i32; }");
    assert_eq!(p.tag_name, "TAG_COUNTER");
    assert_eq!(p.tag_path, "Counter");
}

#[test]
fn generate_produces_vtable_struct() {
    let p = abi("pub trait Counter { fn value(&self) -> i32; fn increment(&mut self); }");
    assert_eq!(p.vtable_name, "CounterVTable");
    assert_eq!(p.methods.iter().map(|m| m.index).collect::<Vec<_>>(), vec![0, 1]);
}

#[test]
fn generate_produces_view_struct() {
    let p = abi("pub trait Counter { fn value(&self) -> i32; }");
    assert_eq!(p.view_name, "CounterView");
    assert!(p.methods[0].has_view);
}

#[test]
fn generate_produces_vtable_builder() {
    let p = abi("pub trait Counter { fn value(&self) -> i32; }");
    assert_eq!(p.build_vtable_fn, "__counter_build_vtable");
}

#[test]
fn generate_excludes_static_methods_from_vtable() {
    let p = abi("pub trait Factory { fn create() -> Self; fn value(&self) -> i32; }");
    assert_eq!(shim_names(&p), vec!["__factory_value_shim".to_string()]);
    // `create` is static, so its `Self` return asks for no bound.
    assert!(p.extra_bounds.is_empty());
}

#[test]
fn abi_plan_reads_self_in_methods() {
    let p = abi("pub trait Ord2 { fn cmp2(&self, other: &Self) -> i32; fn merge(&mut self, o: &mut Self); fn dup(&self) -> Option<Self>; fn n(&self, k: i32) -> i32; }");
    assert_eq!(p.methods[0].args, vec![ShimArg::SelfRef]);
    assert_eq!(p.methods[1].args, vec![ShimArg::SelfRefMut]);
    assert_eq!(p.methods[3].args, vec![ShimArg::Plain]);
    assert_eq!(p.methods.iter().map(|m| m.has_view).collect::<Vec<_>>(), vec![false, false, false, true]);
    assert_eq!(p.methods[0].display_name, "Ord2::cmp2");
    assert_eq!(p.methods[1].shim_name, "__ord2_merge_shim");
    assert_eq!(p.extra_bounds, vec![ExtraBound::IntoR, ExtraBound::TypedExternal]);
}
