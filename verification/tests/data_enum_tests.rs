use co3_derive::data_enum::derive_no_repr_data_enum;
use co3_derive::repr_c::{gen_data_enum, DataVariant};
use co3_derive::tokens::{Delimiter, Tok};

fn text(toks: &[Tok]) -> String {
    let mut out = String::new();
    for t in toks {
        match t {
            Tok::Ident(s) | Tok::Literal(s) => {
                out.push_str(s);
                out.push(' ');
            }
            Tok::Punct(c, joint) => {
                out.push(*c);
                if !*joint {
                    out.push(' ');
                }
            }
            Tok::Group(d, inner) => {
                let (open, close) = match d {
                    Delimiter::Parenthesis => ("( ", ") "),
                    Delimiter::Brace => ("{ ", "} "),
                    Delimiter::Bracket => ("[ ", "] "),
                    Delimiter::Invisible => ("", ""),
                };
                out.push_str(open);
                out.push_str(&text(inner));
                out.push_str(close);
            }
        }
    }
    out
}

fn variants() -> Vec<DataVariant> {
    vec![
        DataVariant { name: "A".to_string(), field: None, parameterized: false },
        DataVariant { name: "B".to_string(), field: Some(vec![Tok::Ident("u32".to_string())]), parameterized: false },
    ]
}

#[test]
fn a_data_enum_is_a_union_of_variant_structs() {
    let empty: Vec<Tok> = Vec::new();
    let t = text(&gen_data_enum("E", &variants(), "u8", &empty, &empty, &empty, &empty));
    assert!(t.contains("# [ doc = \" Variant struct for [`E::A`]\" ] "), "{t}");
    assert!(t.contains("pub struct CEVariantA where { tag : u8 } "), "{t}");
    assert!(
        t.contains("pub struct CEVariantB where { pub tag : u8 , pub value : < u32 as co3 :: ExternC > :: CType } "),
        "{t}"
    );
    assert!(t.contains("# [ allow ( non_snake_case ) ] pub union CE where { pub A : CEVariantA , pub B : CEVariantB } "), "{t}");
    assert!(t.contains("impl Copy for CE where { } "), "{t}");
    assert!(t.contains("co3 :: mineral ! { unsafe impl ( ) Robust for CE where ( ) { } } "), "{t}");
}

#[test]
fn a_data_enum_encodes_and_decodes_by_tag() {
    let empty: Vec<Tok> = Vec::new();
    let t = text(&derive_no_repr_data_enum("E", &variants(), &empty, &empty, &empty, &empty, &empty, false));
    assert!(t.contains("type Store = ( ( ) , < u32 as co3 :: Encode > :: Store , ) ; "), "{t}");
    assert!(t.contains("Self :: A => CE { A : CEVariantA { tag : 0 } } , "), "{t}");
    assert!(
        t.contains("Self :: B ( payload ) => { CE { B : CEVariantB { tag : 1 , value : co3 :: Encode :: encode ( payload , & mut store . 1 ) } } } , "),
        "{t}"
    );
    assert!(t.contains("match unsafe { * core :: ptr :: from_ref ( & source ) . cast :: < u8 > ( ) } { 0 => Some ( Self :: A ) , "), "{t}");
    assert!(
        t.contains("1 => { let value = unsafe { source . B . value } ; unsafe { co3 :: Decode :: decode ( value , & mut store . 1 ) . map ( Self :: B ) } } , _ => None "),
        "{t}"
    );
    assert!(t.contains("impl co3 :: niche :: Niche for E where Self : co3 :: ExternC , "), "{t}");
    assert!(t.contains("co3 :: out_ptr :: OutPtrRead for E "), "{t}");
}

#[test]
fn a_local_data_enum_has_no_out_pointer_impls() {
    let empty: Vec<Tok> = Vec::new();
    let t = text(&derive_no_repr_data_enum("E", &variants(), &empty, &empty, &empty, &empty, &empty, true));
    assert!(!t.contains("out_ptr"), "{t}");
}
