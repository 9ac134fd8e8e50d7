use co3_derive::lifetimes::explicitize_signature_lifetimes;
use co3_derive::outlives::synthesize_lifetime_bounds;
use co3_derive::signature::{FnInput, FnSig, GenericParam, Receiver, WherePredicate};
use co3_derive::types::{Bound, GenericArg, PathArgs, PathSegment, QSelf, Ty, TyPath};

fn named(name: &str) -> Ty {
    Ty::Path(TyPath {
        qself: None,
        leading_colon: false,
        segments: vec![PathSegment { ident: name.to_string(), args: PathArgs::Bare }],
    })
}

fn with_args(name: &str, args: Vec<GenericArg>) -> Ty {
    Ty::Path(TyPath {
        qself: None,
        leading_colon: false,
        segments: vec![PathSegment { ident: name.to_string(), args: PathArgs::Angle(args) }],
    })
}

fn lt(name: &str) -> GenericArg {
    GenericArg::Lifetime(name.to_string())
}

fn r(lifetime: Option<&str>, elem: Ty) -> Ty {
    Ty::Reference { lifetime: lifetime.map(|l| l.to_string()), mutable: false, elem: Box::new(elem) }
}

fn r_mut(lifetime: Option<&str>, elem: Ty) -> Ty {
    Ty::Reference { lifetime: lifetime.map(|l| l.to_string()), mutable: true, elem: Box::new(elem) }
}

fn arg(name: &str, ty: Ty) -> FnInput {
    FnInput::Typed { attrs: vec![], pat: name.to_string(), ty }
}

fn lifetime_param(name: &str) -> GenericParam {
    GenericParam::Lifetime { name: name.to_string(), outlives: vec![] }
}

fn type_param(name: &str) -> GenericParam {
    GenericParam::Type { name: name.to_string(), bounds: vec![] }
}

fn make_sig(generics: Vec<GenericParam>, inputs: Vec<FnInput>, output: Option<Ty>) -> FnSig {
    FnSig { generics, where_clause: None, inputs, output }
}

fn fn_ptr_of_ref() -> Ty {
    Ty::FnPtr { binder: vec![], output: None, text: "fn(&u8)".to_string() }
}

fn explicitized(mut sig: FnSig) -> FnSig {
    explicitize_signature_lifetimes(&mut sig);
    sig
}

fn with_synthesized_lifetime_bounds(mut sig: FnSig) -> FnSig {
    let unpacked = vec![false; sig.inputs.len()];
    synthesize_lifetime_bounds(&mut sig, &unpacked);
    sig
}

#[test]
fn explicitizes_single_elided_reference_input_and_output() {
    let sig = explicitized(make_sig(vec![], vec![arg("x", r(None, named("u8")))], Some(r(None, named("u8")))));
    let expected = sig_expected_single();
    assert_eq!(sig, expected);
}

fn sig_expected_single() -> FnSig {
    make_sig(
        vec![lifetime_param("__co3_0")],
        vec![arg("x", r(Some("__co3_0"), named("u8")))],
        Some(r(Some("__co3_0"), named("u8"))),
    )
}

#[test]
fn leaves_output_elided_for_multiple_input_lifetime_positions() {
    let sig = explicitized(make_sig(
        vec![],
        vec![arg("x", r(None, named("u8"))), arg("y", r(None, named("u8")))],
        Some(r(None, named("u8"))),
    ));
    let expected = FnSig {
        generics: vec![lifetime_param("__co3_0"), lifetime_param("__co3_1")],
        where_clause: None,
        inputs: vec![arg("x", r(Some("__co3_0"), named("u8"))), arg("y", r(Some("__co3_1"), named("u8")))],
        output: Some(r(None, named("u8"))),
    };
    assert_eq!(sig, expected);
}

#[test]
fn assigns_receiver_lifetime_to_output_when_other_inputs_have_lifetimes() {
    let sig = explicitized(make_sig(
        vec![],
        vec![
            FnInput::Receiver(Receiver::Reference { lifetime: None, mutable: false }),
            arg("x", r(None, named("u8"))),
        ],
        Some(r(None, named("u8"))),
    ));
    let expected = FnSig {
        generics: vec![lifetime_param("__co3_0"), lifetime_param("__co3_1")],
        where_clause: None,
        inputs: vec![
            FnInput::Receiver(Receiver::Reference { lifetime: Some("__co3_0".to_string()), mutable: false }),
            arg("x", r(Some("__co3_1"), named("u8"))),
        ],
        output: Some(r(Some("__co3_0"), named("u8"))),
    };
    assert_eq!(sig, expected);
}

#[test]
fn counts_generic_lifetime_arguments_as_input_lifetime_positions() {
    let sig = explicitized(make_sig(
        vec![],
        vec![arg("x", with_args("Foo", vec![lt("_")]))],
        Some(with_args("Foo", vec![lt("_")])),
    ));
    let expected = make_sig(
        vec![lifetime_param("__co3_0")],
        vec![arg("x", with_args("Foo", vec![lt("__co3_0")]))],
        Some(with_args("Foo", vec![lt("__co3_0")])),
    );
    assert_eq!(sig, expected);
}

#[test]
fn nested_references_are_distinct_input_lifetime_positions() {
    let sig = explicitized(make_sig(vec![], vec![arg("x", r(None, r(None, named("u8"))))], Some(r(None, named("u8")))));
    let expected = make_sig(
        vec![lifetime_param("__co3_0"), lifetime_param("__co3_1")],
        vec![arg("x", r(Some("__co3_0"), r(Some("__co3_1"), named("u8"))))],
        Some(r(None, named("u8"))),
    );
    assert_eq!(sig, expected);
}

#[test]
fn ignores_lifetimes_scoped_to_bare_function_pointer_inputs() {
    let sig = explicitized(make_sig(vec![], vec![arg("x", fn_ptr_of_ref())], Some(r(None, named("u8")))));
    let expected = make_sig(vec![], vec![arg("x", fn_ptr_of_ref())], Some(r(None, named("u8"))));
    assert_eq!(sig, expected);
}

#[test]
fn does_not_rewrite_bare_function_pointer_output_lifetimes() {
    let out = || Ty::FnPtr {
        binder: vec![],
        output: Some(Box::new(r(None, named("u8")))),
        text: "fn(&u8) -> &u8".to_string(),
    };
    let sig = explicitized(make_sig(vec![], vec![arg("x", r(None, named("u8")))], Some(out())));
    let expected = make_sig(
        vec![lifetime_param("__co3_0")],
        vec![arg("x", r(Some("__co3_0"), named("u8")))],
        Some(out()),
    );
    assert_eq!(sig, expected);
}

#[test]
fn named_lifetimes_are_kept_and_decide_the_output() {
    let sig = explicitized(make_sig(
        vec![lifetime_param("a")],
        vec![arg("x", r(Some("a"), named("u8"))), arg("n", named("usize"))],
        Some(with_args("Foo", vec![lt("_")])),
    ));
    let expected = make_sig(
        vec![lifetime_param("a")],
        vec![arg("x", r(Some("a"), named("u8"))), arg("n", named("usize"))],
        Some(with_args("Foo", vec![lt("a")])),
    );
    assert_eq!(sig, expected);
}

#[test]
fn explicitizing_twice_changes_nothing_more() {
    let once = explicitized(make_sig(
        vec![],
        vec![
            FnInput::Receiver(Receiver::Reference { lifetime: None, mutable: true }),
            arg("x", r(None, with_args("Foo", vec![lt("_")]))),
        ],
        Some(r(None, named("str"))),
    ));
    let twice = explicitized(explicitized(make_sig(
        vec![],
        vec![
            FnInput::Receiver(Receiver::Reference { lifetime: None, mutable: true }),
            arg("x", r(None, with_args("Foo", vec![lt("_")]))),
        ],
        Some(r(None, named("str"))),
    )));
    assert_eq!(once, twice);
    assert_eq!(once.generics.len(), 3);
}

#[test]
fn does_not_synthesize_bounds_from_bare_function_pointer_args() {
    let make = || {
        make_sig(
            vec![lifetime_param("a"), lifetime_param("b")],
            vec![arg("x", Ty::FnPtr { binder: vec![], output: None, text: "fn(&'a &'b u8)".to_string() })],
            None,
        )
    };
    assert_eq!(with_synthesized_lifetime_bounds(make()), make());
}

#[test]
fn preserves_implied_reference_pointee_bound() {
    let foo_t = || with_args("Foo", vec![GenericArg::Type(named("T"))]);
    let sig = with_synthesized_lifetime_bounds(make_sig(
        vec![lifetime_param("a"), type_param("T")],
        vec![arg("x", r_mut(Some("a"), foo_t()))],
        None,
    ));
    let expected = FnSig {
        generics: vec![lifetime_param("a"), type_param("T")],
        where_clause: Some(vec![WherePredicate::Type {
            ty: foo_t(),
            bounds: vec![Bound::Lifetime("a".to_string())],
        }]),
        inputs: vec![arg("x", r_mut(Some("a"), foo_t()))],
        output: None,
    };
    assert_eq!(sig, expected);
}

#[test]
fn does_not_synthesize_bounds_from_projections() {
    let projection = || {
        let inner = Ty::Path(TyPath {
            qself: Some(QSelf { ty: Box::new(named("Foo")), position: 1, has_as: true }),
            leading_colon: false,
            segments: vec![
                PathSegment { ident: "ExternC".to_string(), args: PathArgs::Bare },
                PathSegment { ident: "CType".to_string(), args: PathArgs::Angle(vec![lt("b")]) },
            ],
        });
        Ty::Path(TyPath {
            qself: Some(QSelf { ty: Box::new(r(Some("a"), inner)), position: 1, has_as: true }),
            leading_colon: false,
            segments: vec![
                PathSegment { ident: "BorrowCast".to_string(), args: PathArgs::Bare },
                PathSegment { ident: "AsConst".to_string(), args: PathArgs::Bare },
            ],
        })
    };
    let make = || make_sig(vec![lifetime_param("a"), lifetime_param("b")], vec![arg("x", projection())], None);
    assert_eq!(with_synthesized_lifetime_bounds(make()), make());
}

#[test]
fn nested_lifetimes_outlive_the_enclosing_ones() {
    let sig = with_synthesized_lifetime_bounds(make_sig(
        vec![lifetime_param("a"), lifetime_param("b")],
        vec![arg("x", r(Some("a"), r(Some("b"), named("u8"))))],
        None,
    ));
    let expected = Some(vec![
        WherePredicate::Type { ty: r(Some("b"), named("u8")), bounds: vec![Bound::Lifetime("a".to_string())] },
        WherePredicate::Type { ty: named("u8"), bounds: vec![Bound::Lifetime("b".to_string())] },
        WherePredicate::Lifetime { lifetime: "b".to_string(), outlives: vec!["a".to_string()] },
    ]);
    assert_eq!(sig.where_clause, expected);
}

#[test]
fn lifetime_predicates_come_sorted() {
    let sig = with_synthesized_lifetime_bounds(make_sig(
        vec![],
        vec![
            arg("x", r(Some("z"), with_args("Foo", vec![lt("y"), lt("x")]))),
            arg("w", r(Some("b"), with_args("Bar", vec![lt("y")]))),
        ],
        None,
    ));
    let where_clause = sig.where_clause.unwrap();
    assert_eq!(
        where_clause[2..],
        [
            WherePredicate::Lifetime { lifetime: "x".to_string(), outlives: vec!["z".to_string()] },
            WherePredicate::Lifetime {
                lifetime: "y".to_string(),
                outlives: vec!["b".to_string(), "z".to_string()],
            },
        ]
    );
}

#[test]
fn unpacked_arguments_and_receivers_imply_nothing() {
    let make = || {
        make_sig(
            vec![lifetime_param("a")],
            vec![
                FnInput::Receiver(Receiver::Reference { lifetime: Some("a".to_string()), mutable: false }),
                arg("x", r(Some("a"), named("u8"))),
            ],
            None,
        )
    };
    let mut s = make();
    synthesize_lifetime_bounds(&mut s, &vec![false, true]);
    assert_eq!(s, make());
    let mut s = make();
    synthesize_lifetime_bounds(&mut s, &vec![]);
    assert_eq!(
        s.where_clause,
        Some(vec![WherePredicate::Type { ty: named("u8"), bounds: vec![Bound::Lifetime("a".to_string())] }])
    );
}
