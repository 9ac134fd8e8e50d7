use co3_derive::tokens::{Attr, AttrMeta};
use co3_derive::types::{
    boxed_wide_type, is_implicitly_by_value, is_tag_id, option_inner_type, ownership_mode_for_arg,
    peel_grouped_type, tag_id, Bound, GenericArg, OwnershipMode, PathArgs, PathSegment, QSelf, TagId, Ty, TyPath,
};

fn seg(name: &str) -> PathSegment {
    PathSegment { ident: name.to_string(), args: PathArgs::Bare }
}

fn path(names: &[&str]) -> TyPath {
    TyPath { qself: None, leading_colon: false, segments: names.iter().map(|n| seg(n)).collect() }
}

fn named(name: &str) -> Ty {
    Ty::Path(path(&[name]))
}

fn generic(name: &str, args: Vec<Ty>) -> Ty {
    Ty::Path(TyPath {
        qself: None,
        leading_colon: false,
        segments: vec![PathSegment {
            ident: name.to_string(),
            args: PathArgs::Angle(args.into_iter().map(GenericArg::Type).collect()),
        }],
    })
}

fn reference(mutable: bool, elem: Ty) -> Ty {
    Ty::Reference { lifetime: None, mutable, elem: Box::new(elem) }
}

fn dyn_tag(trait_name: &str) -> Ty {
    let object = Ty::TraitObject {
        bounds: vec![Bound::Trait { maybe: false, binder: vec![], path: path(&[trait_name]) }],
        text: format!("dyn {}", trait_name),
    };
    Ty::Path(TyPath {
        qself: Some(QSelf { ty: Box::new(object), position: 0, has_as: false }),
        leading_colon: false,
        segments: vec![seg("TAG")],
    })
}

fn fn_ptr() -> Ty {
    Ty::FnPtr { binder: vec![], output: Some(Box::new(named("u16"))), text: "unsafe extern \"C\" fn(u8) -> u16".to_string() }
}

#[test]
fn selects_implicit_by_value_argument_types_during_generation() {
    let unit_fn = Ty::FnPtr { binder: vec![], output: None, text: "fn()".to_string() };
    let by_value: Vec<Ty> = vec![
        dyn_tag("Trait"),
        reference(false, named("u8")),
        reference(true, named("str")),
        Ty::Ptr { mutable: false, elem: Box::new(named("u8")) },
        fn_ptr(),
        named("u32"),
        Ty::Path(path(&["core", "primitive", "char"])),
        generic("Option", vec![reference(false, named("u8"))]),
        generic("Option", vec![generic("Option", vec![reference(false, named("u8"))])]),
        Ty::Tuple(vec![
            dyn_tag("Trait"),
            generic("Option", vec![reference(false, named("u8"))]),
            Ty::Tuple(vec![named("u32"), unit_fn]),
        ]),
        Ty::Paren { elem: Box::new(reference(false, named("u8"))), text: "(&u8)".to_string() },
    ];
    for ty in &by_value {
        assert_eq!(
            ownership_mode_for_arg(&vec![], ty),
            OwnershipMode::ByValue,
            "expected `{:?}` to use by-value conversion",
            ty
        );
    }
}

#[test]
fn leaves_other_argument_types_borrowed_by_default() {
    let borrowed: Vec<Ty> = vec![
        named("String"),
        generic("Option", vec![named("String")]),
        Ty::Tuple(vec![reference(false, named("u8")), named("String")]),
        Ty::Array { elem: Box::new(named("u8")), len: "4".to_string() },
        Ty::Tuple(vec![]),
        named("str"),
    ];
    for ty in &borrowed {
        assert_eq!(
            ownership_mode_for_arg(&vec![], ty),
            OwnershipMode::Borrow,
            "expected `{:?}` to use borrowed conversion",
            ty
        );
    }
    let attrs = vec![Attr { path: vec!["by_val".to_string()], meta: AttrMeta::Path }];
    assert_eq!(ownership_mode_for_arg(&attrs, &named("String")), OwnershipMode::ByValue);
}

#[test]
fn tag_ids_are_dyn_trait_tags() {
    assert!(is_tag_id(&dyn_tag("Trait")));
    assert!(is_tag_id(&dyn_tag("Self")));
    assert!(!is_tag_id(&named("TAG")));
    assert!(!is_implicitly_by_value(&generic("Option", vec![])));
    assert!(is_implicitly_by_value(&generic("Option", vec![named("i64")])));
}

#[test]
fn looks_inside_option_and_box() {
    let inner = named("u8");
    let opt = generic("Option", vec![named("u8")]);
    assert_eq!(option_inner_type(&opt), Some(&inner));
    assert_eq!(option_inner_type(&named("u8")), None);
    let boxed = generic("Box", vec![named("dyn_thing")]);
    assert_eq!(boxed_wide_type(&boxed), Some(&named("dyn_thing")));
    assert_eq!(boxed_wide_type(&generic("Box", vec![named("A"), named("B")])), None);
    let grouped = Ty::Group {
        elem: Box::new(Ty::Paren { elem: Box::new(named("u8")), text: "(u8)".to_string() }),
        text: "u8".to_string(),
    };
    assert_eq!(peel_grouped_type(&grouped), &inner);
}

#[test]
fn clones_are_equal() {
    let ty = Ty::Tuple(vec![
        dyn_tag("Trait"),
        generic("Option", vec![reference(true, named("u8"))]),
        fn_ptr(),
        Ty::ImplTrait {
            bounds: vec![
                Bound::Lifetime("a".to_string()),
                Bound::Trait { maybe: true, binder: vec!["b".to_string()], path: path(&["Sized"]) },
            ],
            text: "impl 'a + ?Sized".to_string(),
        },
    ]);
    assert_eq!(ty.clone(), ty);
}

#[test]
fn tag_ids_name_their_trait_or_self() {
    assert_eq!(tag_id(&dyn_tag("Trait")), Some(TagId::DynType("Trait".to_string())));
    assert_eq!(tag_id(&dyn_tag("Self")), Some(TagId::DynSelf));
    assert_eq!(tag_id(&Ty::Path(path(&["u8"]))), None);
}
