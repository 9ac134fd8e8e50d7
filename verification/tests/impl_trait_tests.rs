use co3_derive::impl_trait::TypeImplTraitResolver;
use co3_derive::types::{Bound, GenericArg, PathArgs, PathSegment, Ty, TyPath};

fn named(name: &str) -> Ty {
    Ty::Path(TyPath {
        qself: None,
        leading_colon: false,
        segments: vec![PathSegment { ident: name.to_string(), args: PathArgs::Bare }],
    })
}

fn with_args(name: &str, args: Vec<GenericArg>) -> TyPath {
    TyPath {
        qself: None,
        leading_colon: false,
        segments: vec![PathSegment { ident: name.to_string(), args: PathArgs::Angle(args) }],
    }
}

fn trait_bound(name: &str, args: Vec<GenericArg>) -> Bound {
    Bound::Trait { maybe: false, binder: vec![], path: with_args(name, args) }
}

fn impl_trait(bounds: Vec<Bound>) -> Ty {
    Ty::ImplTrait { bounds, text: "impl ...".to_string() }
}

fn item(ty: Ty) -> GenericArg {
    GenericArg::AssocType("Item".to_string(), ty)
}

fn vec_of(ty: Ty) -> Ty {
    Ty::Path(with_args("Vec", vec![GenericArg::Type(ty)]))
}

fn resolve(mut ty: Ty) -> Ty {
    TypeImplTraitResolver.visit_type_mut(&mut ty);
    ty
}

#[test]
fn into_iterator_becomes_a_vec_of_its_items() {
    let ty = impl_trait(vec![trait_bound("IntoIterator", vec![item(named("u8"))])]);
    assert_eq!(resolve(ty), vec_of(named("u8")));
    let ty = impl_trait(vec![trait_bound("ExactSizeIterator", vec![item(named("u8"))])]);
    assert_eq!(resolve(ty), vec_of(named("u8")));
}

#[test]
fn nested_item_types_are_resolved_too() {
    let inner = impl_trait(vec![trait_bound("Into", vec![GenericArg::Type(named("String"))])]);
    let ty = impl_trait(vec![trait_bound("IntoIterator", vec![item(inner)])]);
    assert_eq!(resolve(ty), vec_of(named("String")));
}

#[test]
fn into_and_as_ref_give_their_argument() {
    let ty = impl_trait(vec![trait_bound("Into", vec![GenericArg::Type(named("String"))])]);
    assert_eq!(resolve(ty), named("String"));
    let ty = impl_trait(vec![trait_bound("AsRef", vec![GenericArg::Type(named("str"))])]);
    assert_eq!(
        resolve(ty),
        Ty::Reference { lifetime: None, mutable: false, elem: Box::new(named("str")) }
    );
}

#[test]
fn the_last_applicable_bound_wins() {
    let ty = impl_trait(vec![
        trait_bound("Into", vec![GenericArg::Type(named("A"))]),
        trait_bound("Send", vec![]),
        trait_bound("AsRef", vec![GenericArg::Type(named("B"))]),
        trait_bound("IntoIterator", vec![]),
    ]);
    assert_eq!(
        resolve(ty),
        Ty::Reference { lifetime: None, mutable: false, elem: Box::new(named("B")) }
    );
}

#[test]
fn other_types_stay_as_they_are() {
    let ty = impl_trait(vec![trait_bound("Display", vec![])]);
    assert_eq!(resolve(ty), impl_trait(vec![trait_bound("Display", vec![])]));
    let inner = impl_trait(vec![trait_bound("Into", vec![GenericArg::Type(named("u8"))])]);
    let ty = vec_of(inner);
    let expected = vec_of(impl_trait(vec![trait_bound("Into", vec![GenericArg::Type(named("u8"))])]));
    assert_eq!(resolve(ty), expected);
    assert_eq!(resolve(named("u8")), named("u8"));
}
