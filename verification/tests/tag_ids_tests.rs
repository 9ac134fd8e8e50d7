use co3_derive::signature::{FnInput, FnSig, GenericParam, WherePredicate};
use co3_derive::tag_ids::{is_declared_dyn_self_impl, normalize_dyn_self_tag_ids, trait_object_single_trait_bound};
use co3_derive::types::{Bound, GenericArg, PathArgs, PathSegment, QSelf, Ty, TyPath};

fn path(name: &str) -> TyPath {
    TyPath {
        qself: None,
        leading_colon: false,
        segments: vec![PathSegment { ident: name.to_string(), args: PathArgs::Bare }],
    }
}

fn named(name: &str) -> Ty {
    Ty::Path(path(name))
}

fn dyn_of(name: &str) -> Ty {
    Ty::TraitObject {
        bounds: vec![Bound::Trait { maybe: false, binder: vec![], path: path(name) }],
        text: format!("dyn {name}"),
    }
}

fn tag_of(q: Ty) -> Ty {
    Ty::Path(TyPath {
        qself: Some(QSelf { ty: Box::new(q), position: 0, has_as: false }),
        leading_colon: false,
        segments: vec![PathSegment { ident: "TAG".to_string(), args: PathArgs::Bare }],
    })
}

fn arg(name: &str, ty: Ty) -> FnInput {
    FnInput::Typed { attrs: vec![], pat: name.to_string(), ty }
}

/// `fn kita(tag: <dyn T>::TAG)`, the one method of the impl.
fn kita() -> FnSig {
    FnSig { generics: vec![], where_clause: None, inputs: vec![arg("tag", tag_of(dyn_of("T")))], output: None }
}

fn id_type(sig: &FnSig) -> &Ty {
    match &sig.inputs[0] {
        FnInput::Typed { ty, .. } => ty,
        FnInput::Receiver(_) => panic!("expected typed argument"),
    }
}

#[test]
fn leaves_dyn_type_id_for_concrete_impl_self() {
    // impl<T> Trait for T { fn kita(tag: <dyn T>::TAG) {} }
    let mut sig = kita();
    normalize_dyn_self_tag_ids(&named("T"), &mut sig);
    let expected = tag_of(dyn_of("T"));
    assert_eq!(id_type(&sig), &expected);
}

#[test]
fn rewrites_dyn_type_id_for_dyn_self_impl() {
    // impl<T> Trait for dyn T { fn kita(tag: <dyn T>::TAG) {} }
    let mut sig = kita();
    normalize_dyn_self_tag_ids(&dyn_of("T"), &mut sig);
    let expected = tag_of(dyn_of("Self"));
    assert_eq!(id_type(&sig), &expected);
}

#[test]
fn rewrites_bound_path_tags_at_any_depth() {
    // impl Trait for dyn Foo { fn f<U: Bar<<Foo>::TAG>>(x: Vec<<Foo>::TAG>) -> Option<<dyn Foo>::TAG>
    //     where <Foo>::TAG: Copy; }
    let in_vec = |t: Ty| Ty::Path(TyPath {
        qself: None,
        leading_colon: false,
        segments: vec![PathSegment { ident: "Vec".to_string(), args: PathArgs::Angle(vec![GenericArg::Type(t)]) }],
    });
    let bar_of = |t: Ty| Bound::Trait {
        maybe: false,
        binder: vec![],
        path: TyPath {
            qself: None,
            leading_colon: false,
            segments: vec![PathSegment { ident: "Bar".to_string(), args: PathArgs::Angle(vec![GenericArg::Type(t)]) }],
        },
    };
    let make = |tag: fn() -> Ty| FnSig {
        generics: vec![GenericParam::Type { name: "U".to_string(), bounds: vec![bar_of(tag())] }],
        where_clause: Some(vec![WherePredicate::Type {
            ty: tag(),
            bounds: vec![Bound::Trait { maybe: false, binder: vec![], path: path("Copy") }],
        }]),
        inputs: vec![arg("x", in_vec(tag()))],
        output: Some(in_vec(tag())),
    };
    let mut sig = make(|| tag_of(named("Foo")));
    normalize_dyn_self_tag_ids(&dyn_of("Foo"), &mut sig);
    assert_eq!(sig, make(|| tag_of(dyn_of("Self"))));

    // A tag of another trait, or a qualified path with a trait, is left alone.
    let mut other = make(|| tag_of(dyn_of("Other")));
    normalize_dyn_self_tag_ids(&dyn_of("Foo"), &mut other);
    assert_eq!(other, make(|| tag_of(dyn_of("Other"))));
}

#[test]
fn tag_with_arguments_is_not_a_tag_id() {
    let with_args = Ty::Path(TyPath {
        qself: Some(QSelf { ty: Box::new(dyn_of("T")), position: 0, has_as: false }),
        leading_colon: false,
        segments: vec![PathSegment { ident: "TAG".to_string(), args: PathArgs::Angle(vec![]) }],
    });
    let mut sig = FnSig { generics: vec![], where_clause: None, inputs: vec![arg("x", with_args)], output: None };
    normalize_dyn_self_tag_ids(&dyn_of("T"), &mut sig);
    assert!(matches!(id_type(&sig), Ty::Path(p) if p.segments[0].args == PathArgs::Angle(vec![])
        && matches!(p.qself.as_ref().map(|q| &*q.ty), Some(Ty::TraitObject { text, .. }) if text == "dyn T")));
}

#[test]
fn single_trait_bound_of_trait_objects() {
    assert_eq!(trait_object_single_trait_bound(&dyn_of("Foo")), Some(&path("Foo")));
    assert_eq!(trait_object_single_trait_bound(&named("Foo")), None);
    let maybe = Ty::TraitObject {
        bounds: vec![Bound::Trait { maybe: true, binder: vec![], path: path("Sized") }],
        text: "dyn ?Sized".to_string(),
    };
    assert_eq!(trait_object_single_trait_bound(&maybe), None);
    let two = Ty::TraitObject {
        bounds: vec![
            Bound::Trait { maybe: false, binder: vec![], path: path("Foo") },
            Bound::Lifetime("a".to_string()),
        ],
        text: "dyn Foo + 'a".to_string(),
    };
    assert_eq!(trait_object_single_trait_bound(&two), None);
}

#[test]
fn declared_dyn_self_impls() {
    let declared = vec!["Foo".to_string(), "Bar".to_string()];
    assert!(is_declared_dyn_self_impl(&dyn_of("Bar"), &declared));
    assert!(!is_declared_dyn_self_impl(&dyn_of("Baz"), &declared));
    assert!(!is_declared_dyn_self_impl(&named("Foo"), &declared));
}
