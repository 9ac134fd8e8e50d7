use co3_derive::ffi_enum::{derive_ffi_type_for_no_repr_data_carrying_enum, unsupported_variants, FfiVariant, VariantShape};
use co3_derive::tokens::{Delimiter, Tok};

fn text(toks: &[Tok]) -> String {
    let mut out = String::new();
    for t in toks {
        match t {
            Tok::Ident(s) | Tok::Literal(s) => {
                out.push_str(s);
                out.push(' ');
            }
            Tok::Punct(c, joint) => {
                out.push(*c);
                if !*joint {
                    out.push(' ');
                }
            }
            Tok::Group(d, inner) => {
                let (open, close) = match d {
                    Delimiter::Parenthesis => ("( ", ") "),
                    Delimiter::Brace => ("{ ", "} "),
                    Delimiter::Bracket => ("[ ", "] "),
                    Delimiter::Invisible => ("", ""),
                };
                out.push_str(open);
                out.push_str(&text(inner));
                out.push_str(close);
            }
        }
    }
    out
}

fn unit(name: &str) -> FfiVariant {
    FfiVariant { name: name.to_string(), shape: VariantShape::Unit }
}

fn single(name: &str, ty: &str) -> FfiVariant {
    FfiVariant { name: name.to_string(), shape: VariantShape::Single(vec![Tok::Ident(ty.to_string())]) }
}

fn where_kw() -> Vec<Tok> {
    vec![Tok::Ident("where".to_string())]
}

#[test]
fn a_data_enum_is_a_tagged_union_across_the_boundary() {
    let empty: Vec<Tok> = Vec::new();
    let vs = vec![unit("A"), single("B", "u8")];
    let (toks, bad) = derive_ffi_type_for_no_repr_data_carrying_enum("E", &vs, &empty, &empty, &where_kw(), &empty, &empty, &empty, false);
    let t = text(&toks);
    assert!(bad.is_empty());
    assert!(t.contains("struct __co3__ReprCE { tag : core :: ffi :: c_uint , payload : __co3__EPayload , } "), "{t}");
    assert!(t.contains("Self :: A => __co3__ReprCE { tag : 0 , payload : __co3__EPayload { A : ( ) } } , "), "{t}");
    assert!(t.contains("Self :: B ( payload ) => { let payload = __co3__EPayload { B : co3 :: Encode :: encode ( payload , & mut store . 1 ) } ; __co3__ReprCE { tag : 1 , payload } } , "), "{t}");
    assert!(t.contains("0 => Ok ( Self :: A ) , "), "{t}");
    assert!(t.contains("1 => { let payload = source . payload . B ; co3 :: Decode :: decode ( payload , & mut store . 1 ) . map ( Self :: B ) } , _ => Err ( co3 :: FfiReturn :: TrapRepresentation ) "), "{t}");
    assert!(t.contains("type Store = ( ( ) , < u8 as co3 :: Encode > :: Store , ) ; "), "{t}");
    assert!(t.contains("const NICHE_VALUE : __co3__ReprCE = __co3__ReprCE { tag : 2 , payload : unsafe { core :: mem :: zeroed ( ) } } ; "), "{t}");
    assert!(t.contains("unsafe impl co3 :: out_ptr :: NonLocal for E where for < '_dummy > u8 : co3 :: out_ptr :: NonLocal { } "), "{t}");
    assert!(!t.contains("WithoutNiche"), "{t}");
}

#[test]
fn a_local_data_enum_has_no_out_pointer() {
    let empty: Vec<Tok> = Vec::new();
    let vs = vec![single("B", "u8")];
    let (toks, _) = derive_ffi_type_for_no_repr_data_carrying_enum("E", &vs, &empty, &empty, &where_kw(), &empty, &empty, &empty, true);
    let t = text(&toks);
    assert!(!t.contains("out_ptr"), "{t}");
    assert!(t.contains("impl < '_dšč , > co3 :: Decode < '_dšč > for E where "), "{t}");
}

#[test]
fn more_than_twelve_variants_keep_the_store_in_an_option() {
    let empty: Vec<Tok> = Vec::new();
    let names = ["A", "B", "C", "D", "F", "G", "H", "I", "J", "K", "L", "M", "N"];
    let vs: Vec<FfiVariant> = names.iter().map(|n| unit(n)).collect();
    let (toks, _) = derive_ffi_type_for_no_repr_data_carrying_enum("E", &vs, &empty, &empty, &where_kw(), &empty, &empty, &empty, true);
    let t = text(&toks);
    assert!(t.contains("type Store = Option < ( "), "{t}");
    assert!(t.contains("let store = store . insert ( Default : default ( ) ) ; match self "), "{t}");
    assert!(t.contains("let store = store . insert ( Default :: default ( ) ) ; match source . tag "), "{t}");
}

#[test]
fn unsupported_variants_are_reported_and_treated_as_units() {
    let empty: Vec<Tok> = Vec::new();
    let vs = vec![unit("A"), FfiVariant { name: "S".to_string(), shape: VariantShape::Other }, unit("C")];
    assert_eq!(unsupported_variants(&vs), vec![1]);
    let (toks, bad) = derive_ffi_type_for_no_repr_data_carrying_enum("E", &vs, &empty, &empty, &where_kw(), &empty, &empty, &empty, true);
    assert_eq!(bad, vec![1]);
    let t = text(&toks);
    assert!(t.contains("1 => Ok ( Self :: S ) , "), "{t}");
}
