use co3_derive::generics::{
    combine_dispatch_generics, merge_generics, merge_impl_generics_for_raw_decl, strip_dispatch_params, Generics,
};
use co3_derive::signature::{GenericParam, WherePredicate};
use co3_derive::types::{Bound, PathArgs, PathSegment, Ty, TyPath};

fn path(name: &str) -> TyPath {
    TyPath {
        qself: None,
        leading_colon: false,
        segments: vec![PathSegment { ident: name.to_string(), args: PathArgs::Bare }],
    }
}

fn lt(name: &str) -> GenericParam {
    GenericParam::Lifetime { name: name.to_string(), outlives: vec![] }
}

fn ty(name: &str) -> GenericParam {
    GenericParam::Type { name: name.to_string(), bounds: vec![] }
}

fn konst(name: &str) -> GenericParam {
    GenericParam::Const { name: name.to_string(), ty: Ty::Path(path("usize")) }
}

fn bound(param: &str, trait_name: &str) -> WherePredicate {
    WherePredicate::Type {
        ty: Ty::Path(path(param)),
        bounds: vec![Bound::Trait { maybe: false, binder: vec![], path: path(trait_name) }],
    }
}

#[test]
fn merge_appends_impl_generics_after_the_function_s() {
    let mut f = Generics { params: vec![ty("U")], where_clause: None };
    merge_generics(Generics { params: vec![lt("a"), ty("T")], where_clause: Some(vec![bound("T", "Copy")]) }, &mut f);
    assert_eq!(f, Generics { params: vec![ty("U"), lt("a"), ty("T")], where_clause: Some(vec![bound("T", "Copy")]) });

    let mut g = Generics { params: vec![], where_clause: Some(vec![bound("U", "Clone")]) };
    merge_generics(Generics { params: vec![], where_clause: Some(vec![bound("T", "Copy")]) }, &mut g);
    assert_eq!(g.where_clause, Some(vec![bound("U", "Clone"), bound("T", "Copy")]));

    let mut h = Generics { params: vec![], where_clause: Some(vec![bound("U", "Clone")]) };
    merge_generics(Generics { params: vec![], where_clause: None }, &mut h);
    assert_eq!(h.where_clause, Some(vec![bound("U", "Clone")]));
}

#[test]
fn raw_decl_without_receiver_keeps_only_impl_lifetimes() {
    let impl_generics = || Generics { params: vec![lt("a"), ty("T"), konst("N")], where_clause: Some(vec![bound("T", "Copy")]) };
    let mut f = Generics { params: vec![ty("U")], where_clause: None };
    merge_impl_generics_for_raw_decl(impl_generics(), false, &mut f);
    assert_eq!(f, Generics { params: vec![ty("U"), lt("a")], where_clause: None });

    let mut m = Generics { params: vec![ty("U")], where_clause: None };
    merge_impl_generics_for_raw_decl(impl_generics(), true, &mut m);
    assert_eq!(
        m,
        Generics { params: vec![ty("U"), lt("a"), ty("T"), konst("N")], where_clause: Some(vec![bound("T", "Copy")]) }
    );
}

#[test]
fn strip_keeps_lifetimes() {
    let mut g = Generics { params: vec![ty("T"), lt("a"), konst("N"), lt("b")], where_clause: Some(vec![bound("T", "Copy")]) };
    strip_dispatch_params(&mut g);
    assert_eq!(g, Generics { params: vec![lt("a"), lt("b")], where_clause: Some(vec![bound("T", "Copy")]) });
}

#[test]
fn combined_generics_put_lifetimes_first_impl_before_method() {
    let impl_generics = Generics { params: vec![ty("T"), lt("a")], where_clause: Some(vec![bound("T", "Copy")]) };
    let method_generics = Generics { params: vec![konst("N"), lt("b"), ty("U")], where_clause: Some(vec![bound("U", "Clone")]) };
    let r = combine_dispatch_generics(Some(&impl_generics), &method_generics);
    assert_eq!(
        r,
        Generics {
            params: vec![lt("a"), lt("b"), ty("T"), konst("N"), ty("U")],
            where_clause: Some(vec![bound("T", "Copy"), bound("U", "Clone")]),
        }
    );
    let alone = combine_dispatch_generics(None, &method_generics);
    assert_eq!(alone, Generics { params: vec![lt("b"), konst("N"), ty("U")], where_clause: Some(vec![bound("U", "Clone")]) });
}
