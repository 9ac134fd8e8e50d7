use co3_derive::derive_items::{
    derive_ffi_type_for_fieldless_enum, derive_ffi_type_for_opaque_item, derive_ffi_type_for_repr_c_struct,
    derive_ffi_type_for_transparent_item,
};
use co3_derive::ffi_enum::{derive_ffi_type_for_repr_c_enum, FfiVariant, VariantShape};
use co3_derive::repr::ReprPrimitive;
use co3_derive::tokens::{Delimiter, Tok};

fn text(toks: &[Tok]) -> String {
    let mut out = String::new();
    for t in toks {
        match t {
            Tok::Ident(s) | Tok::Literal(s) => {
                out.push_str(s);
                out.push(' ');
            }
            Tok::Punct(c, joint) => {
                out.push(*c);
                if !*joint {
                    out.push(' ');
                }
            }
            Tok::Group(d, inner) => {
                let (open, close) = match d {
                    Delimiter::Parenthesis => ("( ", ") "),
                    Delimiter::Brace => ("{ ", "} "),
                    Delimiter::Bracket => ("[ ", "] "),
                    Delimiter::Invisible => ("", ""),
                };
                out.push_str(open);
                out.push_str(&text(inner));
                out.push_str(close);
            }
        }
    }
    out
}

fn id(s: &str) -> Vec<Tok> {
    vec![Tok::Ident(s.to_string())]
}

#[test]
fn an_opaque_type_is_its_own_opaque_representation() {
    let e: Vec<Tok> = Vec::new();
    assert_eq!(
        text(&derive_ffi_type_for_opaque_item("H", &e, &e, &e)),
        "impl co3 :: ir :: Ir for H { type Type = co3 :: ir :: Opaque ; } \
         impl co3 :: niche :: Ir for H { type Type = co3 :: niche :: WithCustomNiche ; } \
         impl co3 :: niche :: Niche for H { const NICHE_VALUE : * mut Self = core :: ptr :: null_mut ( ) ; } "
    );
}

#[test]
fn a_transparent_type_is_transparent_over_its_first_field() {
    let e: Vec<Tok> = Vec::new();
    assert!(derive_ffi_type_for_transparent_item("W", &e, &e, &e, None, None).is_empty());
    assert_eq!(
        text(&derive_ffi_type_for_transparent_item("W", &id("T"), &id("G"), &e, Some(&id("u8")), None)),
        "co3 :: mineral ! { unsafe impl ( T ) Transparent for W G where ( ) { type Target = u8 ; } } "
    );
    let niche = Some(id("N"));
    assert_eq!(
        text(&derive_ffi_type_for_transparent_item("W", &e, &e, &e, Some(&id("u8")), Some((&niche, &id("F"))))),
        "co3 :: mineral ! { unsafe impl ( ) Transparent for W where ( ) { type Target = u8 ; \
         const NICHE_VALUE : < Self as co3 :: ExternC > :: CType = N ; \
         fn is_valid ( target : & Self :: Target ) -> bool { ( F ) ( target ) } } } "
    );
}

#[test]
fn a_repr_c_struct_is_robust() {
    let e: Vec<Tok> = Vec::new();
    assert_eq!(
        text(&derive_ffi_type_for_repr_c_struct("S", &e, &e, &e)),
        "co3 :: mineral ! { impl ( ) Robust for S where ( ) { } } "
    );
}

#[test]
fn a_repr_c_enum_is_transparent_over_its_equivalent() {
    let e: Vec<Tok> = Vec::new();
    let vs = vec![FfiVariant { name: "A".to_string(), shape: VariantShape::Unit }];
    let (toks, bad) = derive_ffi_type_for_repr_c_enum("E", &vs, &e, &e, &e, &e, &e);
    assert!(bad.is_empty());
    let t = text(&toks);
    assert!(t.starts_with("# [ repr ( C ) ] "), "{t}");
    assert!(t.contains("co3 :: mineral ! { impl ( ) Transparent for E where ( ) { type Target = # [ repr ( C ) ] "), "{t}");
    assert!(t.ends_with("fn is_valid ( target : & Self :: Target ) -> bool { target . tag <= 1 } } } "), "{t}");
}

#[test]
fn a_fieldless_enum_is_transparent_over_its_primitive() {
    let vs = vec!["a".to_string(), "Bb".to_string()];
    let t = text(&derive_ffi_type_for_fieldless_enum(ReprPrimitive::U8, "Kind", &vs));
    assert_eq!(
        t,
        "co3 :: mineral ! { unsafe impl Transparent for Kind { type Target = u8 ; \
         const NICHE_VALUE : < Self as co3 :: ExternC > :: CType = 2usize as < Self as co3 :: ExternC > :: CType ; \
         fn is_valid ( target : & Self :: Target ) -> bool { const KIND__A : u8 = 0 ; const KIND__BB : u8 = 1 ; \
         match * target { | KIND__A | KIND__BB => true , _ => false , } } } } "
    );
    let empty = text(&derive_ffi_type_for_fieldless_enum(ReprPrimitive::I16, "K", &vec![]));
    assert!(empty.contains("= 0usize as "), "{empty}");
    assert!(empty.contains("-> bool { false } "), "{empty}");
}
