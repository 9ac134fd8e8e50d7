use co3_derive::self_ty::restore_synthetic_receiver;
use co3_derive::self_ty::normalize_fn_signature;
use co3_derive::signature::{FnInput, FnSig, Receiver};
use co3_derive::tokens::{Attr, AttrMeta};
use co3_derive::types::{Bound, GenericArg, PathArgs, PathSegment, QSelf, Ty, TyPath};

fn seg(name: &str) -> PathSegment {
    PathSegment { ident: name.to_string(), args: PathArgs::Bare }
}

fn path_of(segs: Vec<PathSegment>) -> Ty {
    Ty::Path(TyPath { qself: None, leading_colon: false, segments: segs })
}

fn named(name: &str) -> Ty {
    path_of(vec![seg(name)])
}

fn foo_t() -> PathSegment {
    PathSegment { ident: "Foo".to_string(), args: PathArgs::Angle(vec![GenericArg::Type(named("T"))]) }
}

fn dyn_of(name: &str) -> Ty {
    Ty::TraitObject {
        bounds: vec![Bound::Trait {
            maybe: false,
            binder: vec![],
            path: TyPath { qself: None, leading_colon: false, segments: vec![seg(name)] },
        }],
        text: format!("dyn {name}"),
    }
}

fn arg(name: &str, ty: Ty) -> FnInput {
    FnInput::Typed { attrs: vec![], pat: name.to_string(), ty }
}

fn self_arg(attrs: Vec<Attr>, ty: Ty) -> FnInput {
    FnInput::Typed { attrs, pat: "__co3_self".to_string(), ty }
}

fn reference(elem: Ty) -> Ty {
    Ty::Reference { lifetime: None, mutable: false, elem: Box::new(elem) }
}

fn sig(inputs: Vec<FnInput>, output: Option<Ty>) -> FnSig {
    FnSig { generics: vec![], where_clause: None, inputs, output }
}

fn by_val() -> Attr {
    Attr { path: vec!["by_val".to_string()], meta: AttrMeta::Path }
}

#[test]
fn self_is_written_as_a_path_self_type() {
    // fn f(&self, x: Self) -> Self::Out, in `impl Foo<T>`
    let mut s = sig(
        vec![FnInput::Receiver(Receiver::Reference { lifetime: None, mutable: false }), arg("x", named("Self"))],
        Some(path_of(vec![seg("Self"), seg("Out")])),
    );
    normalize_fn_signature(&mut s, Some(&path_of(vec![foo_t()])), vec![]);
    assert_eq!(
        s,
        sig(
            vec![self_arg(vec![], reference(path_of(vec![foo_t()]))), arg("x", path_of(vec![foo_t()]))],
            Some(path_of(vec![foo_t(), seg("Out")])),
        )
    );
}

#[test]
fn self_of_a_trait_object_impl_is_qualified_and_parenthesized() {
    // fn f(&self) -> Self::Out, in `impl Tr for dyn Tr`
    let mut s = sig(
        vec![FnInput::Receiver(Receiver::Reference { lifetime: Some("a".to_string()), mutable: true })],
        Some(path_of(vec![seg("Self"), seg("Out")])),
    );
    normalize_fn_signature(&mut s, Some(&dyn_of("Tr")), vec![by_val()]);
    let paren = Ty::Paren { elem: Box::new(dyn_of("Tr")), text: "(dyn Tr)".to_string() };
    let qualified = Ty::Path(TyPath {
        qself: Some(QSelf { ty: Box::new(dyn_of("Tr")), position: 0, has_as: false }),
        leading_colon: false,
        segments: vec![seg("Out")],
    });
    assert_eq!(
        s,
        sig(
            vec![self_arg(
                vec![by_val()],
                Ty::Reference { lifetime: Some("a".to_string()), mutable: true, elem: Box::new(paren) },
            )],
            Some(qualified),
        )
    );
}

#[test]
fn tag_ids_keep_self() {
    let tag = || {
        Ty::Path(TyPath {
            qself: Some(QSelf { ty: Box::new(dyn_of("Self")), position: 0, has_as: false }),
            leading_colon: false,
            segments: vec![seg("TAG")],
        })
    };
    let mut s = sig(vec![arg("id", tag()), arg("v", named("Self"))], None);
    normalize_fn_signature(&mut s, Some(&named("Value")), vec![]);
    assert_eq!(s, sig(vec![arg("id", tag()), arg("v", named("Value"))], None));
}

#[test]
fn without_a_self_type_only_the_receiver_changes() {
    let mut s = sig(vec![FnInput::Receiver(Receiver::Value), arg("x", reference(dyn_of("Tr")))], Some(named("Self")));
    normalize_fn_signature(&mut s, None, vec![by_val()]);
    assert_eq!(
        s,
        sig(vec![self_arg(vec![by_val()], named("Self")), arg("x", reference(dyn_of("Tr")))], Some(named("Self")))
    );
}

#[test]
fn restoring_the_receiver_undoes_its_rewrite() {
    let recv_attr = Attr { path: vec!["dispatch".to_string()], meta: AttrMeta::Path };
    // fn f(&'a mut self, x: u8), receiver carrying #[dispatch]
    let mut s = sig(
        vec![
            FnInput::Receiver(Receiver::Reference { lifetime: Some("a".to_string()), mutable: true }),
            arg("x", named("u8")),
        ],
        None,
    );
    let original = sig(
        vec![
            FnInput::Receiver(Receiver::Reference { lifetime: Some("a".to_string()), mutable: true }),
            arg("x", named("u8")),
        ],
        None,
    );
    normalize_fn_signature(&mut s, None, vec![recv_attr]);
    assert_eq!(
        s.inputs[0],
        self_arg(
            vec![Attr { path: vec!["dispatch".to_string()], meta: AttrMeta::Path }],
            Ty::Reference { lifetime: Some("a".to_string()), mutable: true, elem: Box::new(named("Self")) },
        )
    );
    let attrs = restore_synthetic_receiver(&mut s);
    assert_eq!(s, original);
    assert_eq!(attrs, vec![Attr { path: vec!["dispatch".to_string()], meta: AttrMeta::Path }]);
}

#[test]
fn restoring_reads_self_types_as_receivers() {
    let mut s = sig(vec![arg("x", named("u8")), self_arg(vec![], named("Self"))], None);
    assert_eq!(restore_synthetic_receiver(&mut s), vec![]);
    assert_eq!(s.inputs[1], FnInput::Receiver(Receiver::Value));
    let boxed = path_of(vec![PathSegment {
        ident: "Box".to_string(),
        args: PathArgs::Angle(vec![GenericArg::Type(named("Self"))]),
    }]);
    let mut t = sig(vec![FnInput::Typed { attrs: vec![], pat: "mut __co3_self".to_string(), ty: boxed }], None);
    restore_synthetic_receiver(&mut t);
    match &t.inputs[0] {
        FnInput::Receiver(Receiver::Typed(_)) => {}
        other => panic!("unexpected {other:?}"),
    }
    let mut u = sig(vec![arg("x", named("u8"))], None);
    assert_eq!(restore_synthetic_receiver(&mut u), vec![]);
    assert_eq!(u, sig(vec![arg("x", named("u8"))], None));
}

fn dyn_self_tag() -> Ty {
    Ty::Path(TyPath {
        qself: Some(QSelf { ty: Box::new(dyn_of("Self")), position: 0, has_as: false }),
        leading_colon: false,
        segments: vec![seg("TAG")],
    })
}

#[test]
fn normalizes_dyn_self_tag_id() {
    // impl<dyn(u32) U> Trait<T> for U { fn name(self_id: <dyn Self>::TAG); }
    let mut s = sig(vec![arg("self_id", dyn_self_tag())], None);
    co3_derive::self_ty::normalize_self_tag_ids(&named("U"), "U", &mut s);
    let expected = Ty::Path(TyPath {
        qself: Some(QSelf { ty: Box::new(dyn_of("U")), position: 0, has_as: false }),
        leading_colon: false,
        segments: vec![seg("TAG")],
    });
    assert_eq!(s.inputs, vec![arg("self_id", expected)]);
}

#[test]
fn self_tag_of_a_trait_object_self_type_keeps_it() {
    let mut s = sig(vec![], Some(reference(dyn_self_tag())));
    co3_derive::self_ty::normalize_self_tag_ids(&dyn_of("Tr"), "dyn Tr", &mut s);
    let expected = Ty::Path(TyPath {
        qself: Some(QSelf { ty: Box::new(dyn_of("Tr")), position: 0, has_as: false }),
        leading_colon: false,
        segments: vec![seg("TAG")],
    });
    assert_eq!(s.output, Some(reference(expected)));
}

#[test]
fn restores_receiver_after_id_arg() {
    // impl<dyn(u8) T> Trait<T> for Value { fn name(self_id: <dyn Self>::TAG, &mut self, value: &T); }
    let mut s = sig(
        vec![
            arg("self_id", dyn_self_tag()),
            FnInput::Receiver(Receiver::Reference { lifetime: None, mutable: true }),
            arg("value", reference(named("T"))),
        ],
        None,
    );
    normalize_fn_signature(&mut s, None, vec![]);
    assert!(matches!(s.inputs[1], FnInput::Typed { ref pat, .. } if pat == "__co3_self"));
    co3_derive::self_ty::normalize_self_tag_ids(&named("Value"), "Value", &mut s);
    let attrs = restore_synthetic_receiver(&mut s);
    assert!(attrs.is_empty());
    assert!(matches!(s.inputs[1], FnInput::Receiver(Receiver::Reference { mutable: true, .. })));
}
