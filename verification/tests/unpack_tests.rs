use co3_derive::types::{GenericArg, PathArgs, PathSegment, QSelf, Ty, TyPath};
use co3_derive::unpack::{
    inferred_unpack_option_inner, is_unpack_arg, single_unpack_part, unpack_abi_parts, unpack_logical_parts,
    unpack_parts, validate_single_unpack, UnpackError, UnpackList, UnpackPart,
};

fn seg(name: &str) -> PathSegment {
    PathSegment { ident: name.to_string(), args: PathArgs::Bare }
}

fn named(name: &str) -> Ty {
    Ty::Path(TyPath { qself: None, leading_colon: false, segments: vec![seg(name)] })
}

fn generic(name: &str, arg: Ty) -> Ty {
    Ty::Path(TyPath {
        qself: None,
        leading_colon: false,
        segments: vec![PathSegment { ident: name.to_string(), args: PathArgs::Angle(vec![GenericArg::Type(arg)]) }],
    })
}

fn qualified(t: Ty, trait_path: &[&str], assoc: &str) -> Ty {
    let mut segments: Vec<PathSegment> = trait_path.iter().map(|s| seg(s)).collect();
    segments.push(seg(assoc));
    Ty::Path(TyPath {
        qself: Some(QSelf { ty: Box::new(t), position: trait_path.len(), has_as: true }),
        leading_colon: false,
        segments,
    })
}

fn ctype(t: Ty) -> Ty {
    qualified(t, &["co3", "ExternC"], "CType")
}

fn wide(t: Ty, assoc: &str) -> Ty {
    qualified(t, &["co3", "wide", "Wide"], assoc)
}

fn cbox(t: Ty) -> Ty {
    Ty::Path(TyPath {
        qself: None,
        leading_colon: false,
        segments: vec![
            seg("co3"),
            seg("boxed"),
            PathSegment { ident: "CBox".to_string(), args: PathArgs::Angle(vec![GenericArg::Type(t)]) },
        ],
    })
}

fn part(logical: Ty) -> UnpackPart {
    UnpackPart { logical, abi: None }
}

fn infer_parts() -> Vec<UnpackList> {
    vec![UnpackList::Parts(vec![part(Ty::Infer), part(Ty::Infer)])]
}

fn pair(a: Ty, b: Ty) -> Ty {
    Ty::Tuple(vec![a, b])
}

#[test]
fn which_attributes_unpack_a_parameter() {
    assert!(!is_unpack_arg(&vec![]));
    assert!(is_unpack_arg(&vec![UnpackList::NotList]));
    assert!(!is_unpack_arg(&vec![UnpackList::Parts(vec![part(named("A"))])]));
    assert!(is_unpack_arg(&infer_parts()));
    assert!(is_unpack_arg(&vec![UnpackList::Parts(vec![])]));
    assert!(!is_unpack_arg(&vec![UnpackList::Invalid { parsed: vec![], message: "bad".to_string() }]));
    assert!(is_unpack_arg(&vec![UnpackList::Parts(vec![part(named("A"))]), UnpackList::NotList]));
    let inferred_abi = UnpackPart { logical: named("A"), abi: Some(Ty::Infer) };
    assert!(!is_unpack_arg(&vec![UnpackList::Parts(vec![part(named("A")), inferred_abi])]));
}

#[test]
fn two_part_form_must_have_two_parts() {
    assert_eq!(unpack_parts(&vec![]), Ok(None));
    let e = unpack_parts(&vec![UnpackList::NotList]).unwrap_err();
    assert_eq!(e, UnpackError::TwoParts);
    assert_eq!(e.message(), "#[unpack] expects exactly two parts");
    let three = vec![UnpackList::Parts(vec![part(named("A")), part(named("B")), part(named("C"))])];
    assert_eq!(unpack_parts(&three), Err(UnpackError::TwoParts));
    let forms = infer_parts();
    let (a, b) = unpack_parts(&forms).unwrap().unwrap();
    assert_eq!((&a.logical, &b.logical), (&Ty::Infer, &Ty::Infer));
}

#[test]
fn inferred_abi_type_comes_before_a_later_syntax_error() {
    let inferred_abi = UnpackPart { logical: named("A"), abi: Some(Ty::Infer) };
    let e = unpack_parts(&vec![UnpackList::Invalid { parsed: vec![inferred_abi], message: "expected `,`".to_string() }])
        .unwrap_err();
    assert_eq!(e, UnpackError::InferredAbi { part: 0 });
    assert_eq!(e.message(), "the ABI type after `=>` cannot be `_`");
    let e = unpack_parts(&vec![UnpackList::Invalid { parsed: vec![part(named("A"))], message: "expected `,`".to_string() }])
        .unwrap_err();
    assert_eq!(e, UnpackError::Syntax { message: "expected `,`".to_string() });
    assert_eq!(e.message(), "expected `,`");
}

#[test]
fn one_part_form() {
    assert_eq!(validate_single_unpack(&vec![]), Ok(false));
    assert_eq!(validate_single_unpack(&vec![UnpackList::NotList]), Ok(false));
    assert_eq!(validate_single_unpack(&infer_parts()), Ok(false));
    assert_eq!(validate_single_unpack(&vec![UnpackList::Parts(vec![part(named("A"))])]), Ok(true));
    let with_abi = vec![UnpackList::Parts(vec![UnpackPart { logical: named("A"), abi: Some(named("B")) }])];
    let e = validate_single_unpack(&with_abi).unwrap_err();
    assert_eq!(e, UnpackError::OnePartAbi);
    assert_eq!(e.message(), "the one-part #[unpack] form does not support ABI erasure");

    let arg = pair(named("u8"), named("u16"));
    let inferred = vec![UnpackList::Parts(vec![part(Ty::Infer)])];
    assert_eq!(single_unpack_part(&inferred, &arg), Ok(Some(pair(named("u8"), named("u16")))));
    let given = vec![UnpackList::Parts(vec![part(named("Pair"))])];
    assert_eq!(single_unpack_part(&given, &arg), Ok(Some(named("Pair"))));
    assert_eq!(single_unpack_part(&infer_parts(), &arg), Ok(None));
}

#[test]
fn parts_inferred_from_a_tuple() {
    let arg = pair(named("A"), named("B"));
    let expected = (ctype(named("A")), ctype(named("B")));
    assert_eq!(unpack_abi_parts(&infer_parts(), &arg), Ok((ctype(named("A")), ctype(named("B")))));
    assert_eq!(unpack_logical_parts(&infer_parts(), &arg), Ok(expected));
    let paren = Ty::Paren { elem: Box::new(pair(named("A"), named("B"))), text: "((A, B))".to_string() };
    assert_eq!(unpack_abi_parts(&infer_parts(), &paren), Ok((ctype(named("A")), ctype(named("B")))));
}

#[test]
fn parts_inferred_from_wide_references_and_boxes() {
    let slice = || Ty::Slice(Box::new(named("u8")));
    let by_mut = Ty::Reference { lifetime: None, mutable: true, elem: Box::new(slice()) };
    assert_eq!(
        unpack_abi_parts(&infer_parts(), &by_mut),
        Ok((
            Ty::Ptr { mutable: true, elem: Box::new(ctype(wide(slice(), "Data"))) },
            wide(slice(), "Metadata")
        ))
    );
    let by_ref = Ty::Reference { lifetime: Some("a".to_string()), mutable: false, elem: Box::new(named("str")) };
    assert_eq!(
        unpack_logical_parts(&infer_parts(), &by_ref),
        Ok((
            Ty::Ptr { mutable: false, elem: Box::new(ctype(wide(named("str"), "Data"))) },
            wide(named("str"), "Metadata")
        ))
    );
    let boxed = generic("Box", named("str"));
    assert_eq!(
        unpack_abi_parts(&infer_parts(), &boxed),
        Ok((cbox(ctype(wide(named("str"), "Data"))), wide(named("str"), "Metadata")))
    );
}

#[test]
fn option_is_unpacked_inside() {
    let arg = generic("Option", pair(named("A"), named("B")));
    assert_eq!(unpack_abi_parts(&infer_parts(), &arg), Ok((ctype(named("A")), ctype(named("B")))));
    let inner = pair(named("A"), named("B"));
    assert_eq!(inferred_unpack_option_inner(&infer_parts(), &arg), Ok(Some(&inner)));
    assert_eq!(inferred_unpack_option_inner(&infer_parts(), &inner), Ok(None));
    let given = vec![UnpackList::Parts(vec![part(named("X")), part(named("Y"))])];
    assert_eq!(inferred_unpack_option_inner(&given, &arg), Ok(None));
    assert_eq!(inferred_unpack_option_inner(&vec![UnpackList::Parts(vec![part(Ty::Infer)])], &arg), Ok(None));
}

#[test]
fn given_and_abi_types() {
    let forms = vec![UnpackList::Parts(vec![
        UnpackPart { logical: named("X"), abi: Some(named("RawX")) },
        part(named("Y")),
    ])];
    let arg = named("Anything");
    assert_eq!(unpack_abi_parts(&forms, &arg), Ok((ctype(named("RawX")), ctype(named("Y")))));
    assert_eq!(unpack_logical_parts(&forms, &arg), Ok((ctype(named("X")), ctype(named("Y")))));
}

#[test]
fn parts_that_cannot_be_inferred() {
    let e = unpack_abi_parts(&infer_parts(), &named("u8")).unwrap_err();
    assert_eq!(e, UnpackError::Inferred { second: false });
    assert_eq!(
        e.message(),
        "the first `_` unpack argument is only supported for two-element tuples, references to `Wide` types, and `Box`es of `Wide` types"
    );
    let forms = vec![UnpackList::Parts(vec![part(named("A")), part(Ty::Infer)])];
    let e = unpack_logical_parts(&forms, &named("u8")).unwrap_err();
    assert_eq!(e, UnpackError::Inferred { second: true });
    assert!(e.message().starts_with("the second `_` unpack argument"));
    let triple = Ty::Tuple(vec![named("A"), named("B"), named("C")]);
    assert_eq!(unpack_abi_parts(&infer_parts(), &triple), Err(UnpackError::Inferred { second: false }));
}
