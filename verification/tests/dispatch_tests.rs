use co3_derive::cycles::validate_dispatch_cycles;
use co3_derive::dispatch::{dispatch_target_mentions_param, ty_refers_exec};
use co3_derive::dispatch_check::{
    assemble_dispatch_groups, find_erased_attr, parse_dispatch_group, validate_dispatch_targets,
    CapturedParam, DispatchError, RawGroup,
};
use co3_derive::groups::{DispatchGroups, DispatchTarget};
use co3_derive::signature::GenericParam;
use co3_derive::tokens::{Attr, AttrMeta};
use co3_derive::types::{Bound, GenericArg, PathArgs, PathSegment, QSelf, Ty, TyPath};

fn named(name: &str) -> Ty {
    Ty::Path(TyPath {
        qself: None,
        leading_colon: false,
        segments: vec![PathSegment { ident: name.to_string(), args: PathArgs::Bare }],
    })
}

fn with_args(name: &str, args: Vec<GenericArg>) -> Ty {
    Ty::Path(TyPath {
        qself: None,
        leading_colon: false,
        segments: vec![PathSegment { ident: name.to_string(), args: PathArgs::Angle(args) }],
    })
}

fn ty(t: Ty) -> GenericArg {
    GenericArg::Type(t)
}

fn target(args: Vec<GenericArg>) -> DispatchTarget {
    DispatchTarget { turbofish: false, args }
}

fn ident(name: &str) -> CapturedParam {
    CapturedParam::Ident(name.to_string())
}

fn type_param(name: &str) -> GenericParam {
    GenericParam::Type { name: name.to_string(), bounds: vec![] }
}

fn const_param(name: &str) -> GenericParam {
    GenericParam::Const { name: name.to_string(), ty: named("usize") }
}

fn group(params: &[&str], targets: Vec<DispatchTarget>) -> RawGroup {
    RawGroup { params: params.iter().map(|p| ident(p)).collect(), targets }
}

fn assembled(generics: &Vec<GenericParam>, raw: Vec<RawGroup>) -> DispatchGroups {
    assemble_dispatch_groups(generics, &raw).unwrap()
}

fn params_of(d: &DispatchGroups) -> Vec<Vec<String>> {
    d.groups().iter().map(|g| g.params.clone()).collect()
}

#[test]
fn parses_statically_selected_const_generic() {
    let generics = vec![const_param("N")];
    let raw = vec![group(
        &["N"],
        vec![target(vec![GenericArg::Const("1".to_string())]), target(vec![GenericArg::Const("2".to_string())])],
    )];
    let dispatch = assemble_dispatch_groups(&generics, &raw).unwrap();
    assert!(validate_dispatch_targets(&generics, &dispatch).is_ok());
    let g = &dispatch.groups()[0];
    assert_eq!(g.params.len(), 1);
    assert_eq!(g.params[0], "N");
    assert_eq!(g.targets.len(), 2);
    assert!(matches!(g.targets[0].args.first(), Some(GenericArg::Const(_))));
}

#[test]
fn a_lifetime_cannot_be_a_dispatch_parameter() {
    let generics = vec![GenericParam::Lifetime { name: "a".to_string(), outlives: vec![] }, type_param("T")];
    let mut assigned = Vec::new();
    let params = vec![CapturedParam::Lifetime("a".to_string()), ident("T")];
    let err = parse_dispatch_group(&generics, &mut assigned, 0, &params).unwrap_err();
    assert_eq!(err, vec![DispatchError::LifetimeParam { group: 0, param: 0 }]);
    assert!(err[0].message().contains("dispatch parameters cannot be lifetimes"));
}

#[test]
fn group_parameters_must_be_declared_and_unique() {
    let generics = vec![type_param("T"), type_param("U")];
    let mut assigned = Vec::new();
    assert_eq!(
        parse_dispatch_group(&generics, &mut assigned, 0, &vec![ident("T")]),
        Ok(vec!["T".to_string()])
    );
    let err = parse_dispatch_group(&generics, &mut assigned, 1, &vec![ident("T"), ident("X"), ident("U")]).unwrap_err();
    assert_eq!(
        err,
        vec![DispatchError::InTwoGroups { group: 1, param: 0 }, DispatchError::Undeclared { group: 1, param: 1 }]
    );
    assert_eq!(err[0].message(), "dispatch parameter cannot appear in more than one group");
    assert_eq!(err[1].message(), "dispatch parameter is not declared on this item");
    let err = parse_dispatch_group(&generics, &mut assigned, 2, &vec![]).unwrap_err();
    assert_eq!(err, vec![DispatchError::EmptyGroup { group: 2 }]);
    assert_eq!(err[0].message(), "dispatch groups must contain at least one parameter");
    let err = parse_dispatch_group(&generics, &mut Vec::new(), 0, &vec![CapturedParam::Other("Self".to_string())]).unwrap_err();
    assert_eq!(err[0].message(), "dispatch parameters must be type or const parameters");
}

#[test]
fn a_parameter_repeated_in_one_group_is_refused() {
    let generics = vec![type_param("T")];
    let err = parse_dispatch_group(&generics, &mut Vec::new(), 0, &vec![ident("T"), ident("T")]).unwrap_err();
    assert_eq!(err, vec![DispatchError::InTwoGroups { group: 0, param: 1 }]);
}

#[test]
fn the_first_refused_group_is_reported() {
    let generics = vec![type_param("T"), type_param("U")];
    let raw = vec![
        group(&["T"], vec![target(vec![ty(named("u8"))])]),
        group(&["X"], vec![]),
        group(&["Y"], vec![]),
    ];
    assert_eq!(
        assemble_dispatch_groups(&generics, &raw).err(),
        Some(vec![DispatchError::Undeclared { group: 1, param: 0 }])
    );
}

#[test]
fn groups_come_in_the_order_of_their_parameters() {
    let generics = vec![type_param("A"), type_param("B"), type_param("Z")];
    let d = assembled(
        &generics,
        vec![
            group(&["Z"], vec![target(vec![ty(named("u8"))])]),
            group(&["B"], vec![target(vec![ty(named("u16"))])]),
            group(&["A"], vec![target(vec![ty(named("u32"))])]),
        ],
    );
    assert_eq!(params_of(&d), vec![vec!["A".to_string()], vec!["B".to_string()], vec!["Z".to_string()]]);
    assert!(d.contains_param("B"));
    assert!(!d.contains_param("C"));
    assert!(!d.is_empty());
    assert!(DispatchGroups::new().is_empty());
}

#[test]
fn targets_must_fit_their_group() {
    let generics = vec![type_param("T"), const_param("N")];
    let d = assembled(
        &generics,
        vec![group(
            &["T", "N"],
            vec![
                target(vec![ty(named("u8"))]),
                target(vec![GenericArg::Const("1".to_string()), ty(named("u8"))]),
                target(vec![ty(named("u8")), GenericArg::Const("2".to_string())]),
            ],
        )],
    );
    let errors = validate_dispatch_targets(&generics, &d).unwrap_err();
    assert_eq!(
        errors,
        vec![
            DispatchError::WrongArity { group: 0, target: 0, expected: 2 },
            DispatchError::KindMismatch { group: 0, target: 1, arg: 0 },
            DispatchError::KindMismatch { group: 0, target: 1, arg: 1 },
        ]
    );
    assert_eq!(errors[0].message(), "expected 2 concrete generic argument(s)");
    assert_eq!(errors[1].message(), "argument kind must match declared parameter kind");
}

#[test]
fn a_group_needs_a_target() {
    let generics = vec![type_param("T")];
    let d = assembled(&generics, vec![group(&["T"], vec![])]);
    let errors = validate_dispatch_targets(&generics, &d).unwrap_err();
    assert_eq!(errors, vec![DispatchError::NoTargets { group: 0 }]);
    assert_eq!(errors[0].message(), "dispatch groups must contain at least one concrete target");
}

#[test]
fn the_erased_attribute_must_be_single_and_a_list() {
    let list = |name: &str| Attr { path: vec![name.to_string()], meta: AttrMeta::List(vec![]) };
    let bare = Attr { path: vec!["erased".to_string()], meta: AttrMeta::Path };
    assert_eq!(find_erased_attr(&vec![list("doc")]), Ok(None));
    assert_eq!(find_erased_attr(&vec![list("doc"), list("erased")]), Ok(Some(1)));
    assert_eq!(
        find_erased_attr(&vec![list("erased"), list("doc"), list("erased")]),
        Err(DispatchError::DuplicateAttribute { attr: 2 })
    );
    let e = find_erased_attr(&vec![bare]).unwrap_err();
    assert_eq!(e, DispatchError::NotAList { attr: 0 });
    assert_eq!(e.message(), "tagged dispatch must provide concrete generic arguments");
    assert_eq!(
        DispatchError::DuplicateAttribute { attr: 0 }.message(),
        "duplicate tagged-dispatch predicate"
    );
}

#[test]
fn combinations_vary_the_last_group_fastest() {
    let generics = vec![type_param("A"), type_param("B")];
    let d = assembled(
        &generics,
        vec![
            group(&["A"], vec![target(vec![ty(named("u8"))]), target(vec![ty(named("u16"))])]),
            group(&["B"], vec![target(vec![ty(named("i8"))]), target(vec![ty(named("i16"))]), target(vec![ty(named("i32"))])]),
        ],
    );
    assert_eq!(
        d.combinations(),
        vec![vec![0, 0], vec![0, 1], vec![0, 2], vec![1, 0], vec![1, 1], vec![1, 2]]
    );
    assert_eq!(DispatchGroups::new().combinations(), vec![Vec::<usize>::new()]);
    let empty = assembled(&generics, vec![group(&["A"], vec![])]);
    assert!(empty.combinations().is_empty());
}

#[test]
fn combining_takes_the_other_groups_targets() {
    let generics = vec![type_param("A"), type_param("B")];
    let left = assembled(
        &generics,
        vec![group(&["A"], vec![target(vec![ty(named("u8"))])]), group(&["B"], vec![target(vec![ty(named("u8"))])])],
    );
    let right = assembled(&generics, vec![group(&["B"], vec![target(vec![ty(named("u64"))])])]);
    let c = left.combined_with(&right);
    assert_eq!(params_of(&c), vec![vec!["A".to_string()], vec!["B".to_string()]]);
    assert_eq!(c.groups()[0].targets, vec![target(vec![ty(named("u8"))])]);
    assert_eq!(c.groups()[1].targets, vec![target(vec![ty(named("u64"))])]);
}

#[test]
fn bindings_follow_the_parameters_a_target_mentions() {
    let generics = vec![type_param("T"), type_param("U"), type_param("V")];
    let d = assembled(
        &generics,
        vec![
            group(&["T"], vec![target(vec![ty(with_args("Vec", vec![ty(named("U"))]))]), target(vec![ty(named("u8"))])]),
            group(&["U"], vec![target(vec![ty(named("u16"))])]),
            group(&["V"], vec![target(vec![ty(named("u32"))])]),
        ],
    );
    let b = d.bindings_for("T");
    assert_eq!(params_of(&b), vec![vec!["T".to_string()], vec!["U".to_string()]]);
    assert_eq!(b.groups()[0].targets.len(), 2);
    let only_u = d.bindings_for("U");
    assert_eq!(params_of(&only_u), vec![vec!["U".to_string()]]);
    assert!(d.bindings_for("W").is_empty());
}

#[test]
fn bindings_keep_the_selected_arguments_once() {
    let generics = vec![type_param("A"), type_param("B")];
    let d = assembled(
        &generics,
        vec![group(
            &["A", "B"],
            vec![target(vec![ty(named("u8")), ty(named("u16"))]), target(vec![ty(named("u8")), ty(named("u32"))])],
        )],
    );
    let b = d.bindings_for("A");
    assert_eq!(params_of(&b), vec![vec!["A".to_string()]]);
    assert_eq!(b.groups()[0].targets, vec![target(vec![ty(named("u8"))])]);
}

#[test]
fn mutually_dependent_targets_are_cyclic() {
    let generics = vec![type_param("T"), type_param("U")];
    let d = assembled(
        &generics,
        vec![
            group(&["U"], vec![target(vec![ty(with_args("Vec", vec![ty(named("T"))]))])]),
            group(&["T"], vec![target(vec![ty(with_args("Vec", vec![ty(named("U"))]))])]),
        ],
    );
    assert_eq!(validate_dispatch_cycles(&d, None), Err("T".to_string()));
    assert_eq!(DispatchError::CyclicSelection.message(), "cyclic tagged-dispatch selection");
}

#[test]
fn a_target_of_itself_is_cyclic_and_independent_ones_are_not() {
    let generics = vec![type_param("T"), type_param("U")];
    let own = assembled(&generics, vec![group(&["T"], vec![target(vec![ty(with_args("Box", vec![ty(named("T"))]))])])]);
    assert_eq!(validate_dispatch_cycles(&own, None), Err("T".to_string()));
    let chain = assembled(
        &generics,
        vec![
            group(&["T"], vec![target(vec![ty(with_args("Vec", vec![ty(named("U"))]))])]),
            group(&["U"], vec![target(vec![ty(named("u8"))])]),
        ],
    );
    assert_eq!(validate_dispatch_cycles(&chain, None), Ok(()));
}

#[test]
fn only_the_selection_with_a_cycle_is_reported() {
    let generics = vec![type_param("T"), type_param("U")];
    let d = assembled(
        &generics,
        vec![
            group(&["T"], vec![target(vec![ty(named("u8"))]), target(vec![ty(named("U"))])]),
            group(&["U"], vec![target(vec![ty(named("T"))])]),
        ],
    );
    assert_eq!(validate_dispatch_cycles(&d, None), Err("T".to_string()));
    let fine = assembled(
        &generics,
        vec![
            group(&["T"], vec![target(vec![ty(named("u8"))])]),
            group(&["U"], vec![target(vec![ty(named("T"))])]),
        ],
    );
    assert_eq!(validate_dispatch_cycles(&fine, None), Ok(()));
}

#[test]
fn self_in_a_target_stands_for_the_implementing_type() {
    let generics = vec![type_param("T"), type_param("U")];
    let d = assembled(
        &generics,
        vec![
            group(&["T"], vec![target(vec![ty(named("Self"))])]),
            group(&["U"], vec![target(vec![ty(named("T"))])]),
        ],
    );
    let self_ty = with_args("Foo", vec![ty(named("U"))]);
    assert_eq!(validate_dispatch_cycles(&d, Some(&self_ty)), Err("T".to_string()));
    assert_eq!(validate_dispatch_cycles(&d, None), Ok(()));
    assert!(dispatch_target_mentions_param(&ty(named("Self")), "U", Some(&self_ty)));
    assert!(!dispatch_target_mentions_param(&ty(named("Self")), "U", None));
}

#[test]
fn mentions_look_through_type_structure() {
    let qualified = Ty::Path(TyPath {
        qself: Some(QSelf { ty: Box::new(named("T")), position: 1, has_as: true }),
        leading_colon: false,
        segments: vec![
            PathSegment { ident: "Trait".to_string(), args: PathArgs::Bare },
            PathSegment { ident: "Out".to_string(), args: PathArgs::Bare },
        ],
    });
    assert!(ty_refers_exec(&qualified, Some("T")));
    let rooted = Ty::Path(TyPath {
        qself: None,
        leading_colon: true,
        segments: vec![PathSegment { ident: "T".to_string(), args: PathArgs::Bare }],
    });
    assert!(!ty_refers_exec(&rooted, Some("T")));
    let object = Ty::TraitObject {
        bounds: vec![Bound::Trait { maybe: false, binder: vec![], path: TyPath {
            qself: None,
            leading_colon: false,
            segments: vec![PathSegment { ident: "Into".to_string(), args: PathArgs::Angle(vec![ty(named("U"))]) }],
        } }],
        text: "dyn Into<U>".to_string(),
    };
    assert!(ty_refers_exec(&object, Some("U")));
    assert!(!ty_refers_exec(&object, Some("T")));
    assert!(ty_refers_exec(&named("Self"), None));
    let dyn_self_id = Ty::Path(TyPath {
        qself: Some(QSelf {
            ty: Box::new(Ty::TraitObject {
                bounds: vec![Bound::Trait { maybe: false, binder: vec![], path: TyPath {
                    qself: None,
                    leading_colon: false,
                    segments: vec![PathSegment { ident: "Self".to_string(), args: PathArgs::Bare }],
                } }],
                text: "dyn Self".to_string(),
            }),
            position: 0,
            has_as: false,
        }),
        leading_colon: false,
        segments: vec![PathSegment { ident: "ID".to_string(), args: PathArgs::Bare }],
    });
    assert!(!ty_refers_exec(&dyn_self_id, None));
    assert!(ty_refers_exec(&dyn_self_id, Some("Self")));
}
