use co3_derive::enum_codegen::{derive_no_repr_fieldless_enum, gen_enum_niche_ir};
use co3_derive::repr::ReprPrimitive;
use co3_derive::tokens::{Delimiter, Tok};

fn text(toks: &[Tok]) -> String {
    let mut out = String::new();
    for t in toks {
        match t {
            Tok::Ident(s) | Tok::Literal(s) => {
                out.push_str(s);
                out.push(' ');
            }
            Tok::Punct(c, joint) => {
                out.push(*c);
                if !*joint {
                    out.push(' ');
                }
            }
            Tok::Group(d, inner) => {
                let (open, close) = match d {
                    Delimiter::Parenthesis => ("( ", ") "),
                    Delimiter::Brace => ("{ ", "} "),
                    Delimiter::Bracket => ("[ ", "] "),
                    Delimiter::Invisible => ("", ""),
                };
                out.push_str(open);
                out.push_str(&text(inner));
                out.push_str(close);
            }
        }
    }
    out
}

#[test]
fn a_fieldless_enum_is_numbered_by_u8() {
    let toks = derive_no_repr_fieldless_enum("E", &vec!["A".to_string(), "B".to_string()]);
    let t = text(&toks);
    assert!(t.contains("impl co3 :: ExternC for E where { type CType = u8 ; } "), "{t}");
    assert!(t.contains("{ self as u8 } "), "{t}");
    assert!(t.contains("match source { 0 => Some ( Self :: A ) , 1 => Some ( Self :: B ) , _ => None } "), "{t}");
    assert!(t.contains("const NICHE_VALUE : < Self as co3 :: ExternC > :: CType = 2 ; "), "{t}");
    assert!(t.contains("impl co3 :: niche :: NicheFamily for E { type Kind = co3 :: niche :: WithCustomNiche ; } "), "{t}");
    assert!(t.contains("impl co3 :: out_ptr :: OutPtr for E where for < '_dummy > Self : co3 :: out_ptr :: NonLocal , "), "{t}");
}

#[test]
fn an_exhaustive_enum_has_no_niche() {
    let empty: Vec<Tok> = Vec::new();
    let toks = gen_enum_niche_ir(ReprPrimitive::U8, "E", &empty, &empty, &empty, &empty, 256, true);
    assert_eq!(
        text(&toks),
        "impl co3 :: niche :: NicheFamily for E { type Kind = co3 :: niche :: WithoutNiche ; } "
    );
}

#[test]
fn a_data_enum_niche_writes_the_tag_of_a_zeroed_value() {
    let empty: Vec<Tok> = Vec::new();
    let toks = gen_enum_niche_ir(ReprPrimitive::U8, "E", &empty, &empty, &empty, &empty, 3, false);
    let t = text(&toks);
    assert!(t.contains("let mut value : Self :: CType = unsafe { core :: mem :: zeroed ( ) } ; "), "{t}");
    assert!(t.contains("unsafe { * core :: ptr :: from_mut ( & mut value ) . cast :: < u8 > ( ) = 3 } ; value "), "{t}");
}
