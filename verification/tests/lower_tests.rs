use co3_derive::ffi_attrs::FailureMode;
use co3_derive::lower::{
    item_fn_input_arg_type, lower_extern_fn_signature, unpack_arg_names, validate_raw_decl, RawDeclError,
};
use co3_derive::signature::{FnInput, FnSig, GenericParam, Receiver, WherePredicate};
use co3_derive::tokens::{Attr, AttrMeta, Tok};
use co3_derive::types::{Bound, GenericArg, PathArgs, PathSegment, QSelf, Ty, TyPath};
use co3_derive::unpack::{UnpackList, UnpackPart};

fn seg(name: &str) -> PathSegment {
    PathSegment { ident: name.to_string(), args: PathArgs::Bare }
}

fn path(names: &[&str]) -> TyPath {
    TyPath { qself: None, leading_colon: false, segments: names.iter().map(|n| seg(n)).collect() }
}

fn named(name: &str) -> Ty {
    Ty::Path(path(&[name]))
}

fn qualified(t: Ty, trait_path: &[&str], assoc: &str) -> Ty {
    let mut segments: Vec<PathSegment> = trait_path.iter().map(|s| seg(s)).collect();
    segments.push(seg(assoc));
    Ty::Path(TyPath {
        qself: Some(QSelf { ty: Box::new(t), position: trait_path.len(), has_as: true }),
        leading_colon: false,
        segments,
    })
}

fn ctype(t: Ty) -> Ty {
    qualified(t, &["co3", "ExternC"], "CType")
}

fn as_const(t: Ty) -> Ty {
    qualified(t, &["co3", "borrow", "BorrowCast"], "AsConst")
}

fn reference(lifetime: Option<&str>, elem: Ty) -> Ty {
    Ty::Reference { lifetime: lifetime.map(|l| l.to_string()), mutable: false, elem: Box::new(elem) }
}

fn arg(name: &str, ty: Ty) -> FnInput {
    FnInput::Typed { attrs: vec![], pat: name.to_string(), ty }
}

fn attr(name: &str) -> Attr {
    Attr { path: vec![name.to_string()], meta: AttrMeta::Path }
}

fn cfg_attr() -> Attr {
    Attr { path: vec!["cfg".to_string()], meta: AttrMeta::List(vec![Tok::Ident("unix".to_string())]) }
}

fn vec_u8() -> Ty {
    Ty::Path(TyPath {
        qself: None,
        leading_colon: false,
        segments: vec![PathSegment {
            ident: "Vec".to_string(),
            args: PathArgs::Angle(vec![GenericArg::Type(named("u8"))]),
        }],
    })
}

#[test]
fn parameters_cross_by_value_or_borrowed() {
    assert_eq!(item_fn_input_arg_type(&vec![], named("u32")), ctype(named("u32")));
    assert_eq!(item_fn_input_arg_type(&vec![], vec_u8()), as_const(ctype(vec_u8())));
    assert_eq!(item_fn_input_arg_type(&vec![attr("by_val")], vec_u8()), ctype(vec_u8()));
    assert_eq!(unpack_arg_names("bytes"), ("__co3_bytes_data".to_string(), "__co3_bytes_metadata".to_string()));
}

#[test]
fn method_signature_is_lowered() {
    // fn f(&self, x: u32, #[cfg(unix)] s: &str, v: Vec<u8>) -> Value, failures as errors
    let mut sig = FnSig {
        generics: vec![],
        where_clause: None,
        inputs: vec![
            FnInput::Receiver(Receiver::Reference { lifetime: None, mutable: false }),
            arg("x", named("u32")),
            FnInput::Typed { attrs: vec![cfg_attr(), attr("doc")], pat: "s".to_string(), ty: reference(None, named("str")) },
            arg("v", vec_u8()),
        ],
        output: Some(named("Value")),
    };
    let forms: Vec<Vec<UnpackList>> = vec![vec![], vec![], vec![], vec![]];
    lower_extern_fn_signature(&mut sig, FailureMode::Error, &forms, &vec![]);

    assert_eq!(
        sig.generics,
        vec![
            GenericParam::Lifetime { name: "__co3_0".to_string(), outlives: vec![] },
            GenericParam::Lifetime { name: "__co3_1".to_string(), outlives: vec![] },
        ]
    );
    let error_bound = WherePredicate::Type {
        ty: named("Value"),
        bounds: vec![Bound::Trait { maybe: false, binder: vec![], path: path(&["co3", "Error"]) }],
    };
    let str_outlives = WherePredicate::Type { ty: named("str"), bounds: vec![Bound::Lifetime("__co3_1".to_string())] };
    assert_eq!(sig.where_clause, Some(vec![error_bound, str_outlives]));
    assert_eq!(
        sig.inputs,
        vec![
            arg("__co3_self", ctype(reference(Some("__co3_0"), named("Self")))),
            arg("x", ctype(named("u32"))),
            FnInput::Typed { attrs: vec![cfg_attr()], pat: "s".to_string(), ty: ctype(reference(Some("__co3_1"), named("str"))) },
            arg("v", as_const(ctype(vec_u8()))),
        ]
    );
    assert_eq!(sig.output, Some(ctype(named("Value"))));
}

#[test]
fn unpacked_parameter_becomes_data_and_metadata() {
    // fn g(#[unpack(_, _)] bytes: &[u8]), failures panic
    let slice = || Ty::Slice(Box::new(named("u8")));
    let mut sig = FnSig {
        generics: vec![],
        where_clause: None,
        inputs: vec![arg("bytes", reference(None, slice()))],
        output: None,
    };
    let infer = || UnpackPart { logical: Ty::Infer, abi: None };
    let forms = vec![vec![UnpackList::Parts(vec![infer(), infer()])]];
    lower_extern_fn_signature(&mut sig, FailureMode::Panic, &forms, &vec![]);
    let wide = |assoc: &str| qualified(slice(), &["co3", "wide", "Wide"], assoc);
    assert_eq!(
        sig.inputs,
        vec![
            arg("__co3_bytes_data", Ty::Ptr { mutable: false, elem: Box::new(ctype(wide("Data"))) }),
            arg("__co3_bytes_metadata", wide("Metadata")),
        ]
    );
    assert_eq!(sig.where_clause, None);
    assert_eq!(sig.output, None);
}

#[test]
fn raw_declaration_returns_borrowed_form_unless_moved() {
    let make = || FnSig { generics: vec![], where_clause: None, inputs: vec![], output: Some(named("Value")) };
    let mut borrowed = make();
    co3_derive::lower::lower_raw_fn_signature(&mut borrowed, FailureMode::Panic, false, &vec![], &vec![]);
    assert_eq!(borrowed.output, Some(as_const(ctype(named("Value")))));
    let mut moved = make();
    co3_derive::lower::lower_raw_fn_signature(&mut moved, FailureMode::Panic, true, &vec![], &vec![]);
    assert_eq!(moved.output, Some(ctype(named("Value"))));
    assert_eq!(moved.where_clause, None);
}

#[test]
fn raw_declarations_must_be_plain() {
    let sig = |inputs: Vec<FnInput>| FnSig { generics: vec![], where_clause: None, inputs, output: None };
    let plain = sig(vec![
        FnInput::Receiver(Receiver::Value),
        arg("x", named("u8")),
        arg("mut y", named("u8")),
        arg("ref mut z", named("u8")),
    ]);
    assert_eq!(validate_raw_decl(&plain, false, false, false), Ok(()));
    let e = validate_raw_decl(&plain, true, false, false).unwrap_err();
    assert_eq!(e, RawDeclError::Unsupported);
    assert_eq!(
        e.message(),
        "raw function declarations require a safe, synchronous, non-generic function with at most 12 arguments"
    );
    assert_eq!(validate_raw_decl(&plain, false, true, false), Err(RawDeclError::Unsupported));
    let many = sig((0..13).map(|i| arg(&format!("a{i}"), named("u8"))).collect());
    assert_eq!(validate_raw_decl(&many, false, false, false), Err(RawDeclError::Unsupported));
    let twelve = sig((0..12).map(|i| arg(&format!("a{i}"), named("u8"))).collect());
    assert_eq!(validate_raw_decl(&twelve, false, false, false), Ok(()));
    let generic = FnSig {
        generics: vec![GenericParam::Type { name: "T".to_string(), bounds: vec![] }],
        where_clause: None,
        inputs: vec![],
        output: None,
    };
    assert_eq!(validate_raw_decl(&generic, false, false, false), Err(RawDeclError::Unsupported));
    let late_receiver = sig(vec![arg("x", named("u8")), FnInput::Receiver(Receiver::Value)]);
    let e = validate_raw_decl(&late_receiver, false, false, false).unwrap_err();
    assert_eq!(e, RawDeclError::ReceiverNotFirst { index: 1 });
    assert_eq!(e.message(), "raw function receiver must be first");
    let tuple = sig(vec![arg("x", named("u8")), arg("(a, b)", named("u8"))]);
    let e = validate_raw_decl(&tuple, false, false, false).unwrap_err();
    assert_eq!(e, RawDeclError::NotIdent { index: 1 });
    assert_eq!(e.message(), "raw function parameters must be identifiers");
}
