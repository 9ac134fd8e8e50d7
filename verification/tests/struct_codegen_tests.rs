use co3_derive::struct_codegen::{derive_ffi_type_for_no_repr_struct, FieldStyle, StructField};
use co3_derive::tokens::{Delimiter, Tok};

fn text(toks: &[Tok]) -> String {
    let mut out = String::new();
    for t in toks {
        match t {
            Tok::Ident(s) | Tok::Literal(s) => {
                out.push_str(s);
                out.push(' ');
            }
            Tok::Punct(c, joint) => {
                out.push(*c);
                if !*joint {
                    out.push(' ');
                }
            }
            Tok::Group(d, inner) => {
                let (open, close) = match d {
                    Delimiter::Parenthesis => ("( ", ") "),
                    Delimiter::Brace => ("{ ", "} "),
                    Delimiter::Bracket => ("[ ", "] "),
                    Delimiter::Invisible => ("", ""),
                };
                out.push_str(open);
                out.push_str(&text(inner));
                out.push_str(close);
            }
        }
    }
    out
}

fn field(name: Option<&str>, ty: &str) -> StructField {
    StructField { name: name.map(|n| n.to_string()), ty: vec![Tok::Ident(ty.to_string())] }
}

#[test]
fn a_named_struct_is_encoded_field_by_field() {
    let empty: Vec<Tok> = Vec::new();
    let fields = vec![field(Some("a"), "u8"), field(Some("b"), "u16")];
    let t = text(&derive_ffi_type_for_no_repr_struct("S", FieldStyle::Named, &fields, &empty, &empty, &empty, &empty, &empty, &empty, false));
    assert!(t.contains("# [ doc = \" [`ReprC`] equivalent of [`S`]\" ] # [ derive ( Clone ) ] struct __co3__ReprCS { a : < u8 as co3 :: ExternC > :: CType , b : < u16 as co3 :: ExternC > :: CType } "), "{t}");
    assert!(t.contains("let Self { a , b } = self ; __co3__ReprCS { a : co3 :: Encode :: encode ( a , & mut store . 0 ) , b : co3 :: Encode :: encode ( b , & mut store . 1 ) } "), "{t}");
    assert!(t.contains("Ok ( Self { a : co3 :: Decode :: decode ( source . a , & mut store . 0 ) ? , b : co3 :: Decode :: decode ( source . b , & mut store . 1 ) ? } ) "), "{t}");
    assert!(t.contains("impl co3 :: niche :: Ir for S where u8 : co3 :: niche :: Ir < Type = co3 :: niche :: WithoutNiche > , u16 : co3 :: niche :: Ir < Type = co3 :: niche :: WithoutNiche > { type Type = co3 :: niche :: WithoutNiche ; } "), "{t}");
    assert!(t.contains("const NICHE_VALUE : __co3__ReprCS = unsafe { core :: mem :: zeroed ( ) } ; "), "{t}");
    assert!(t.contains("unsafe impl co3 :: out_ptr :: NonLocal for S where for < '_dummy > u8 : co3 :: out_ptr :: NonLocal , for < '_dummy > u16 : co3 :: out_ptr :: NonLocal { } "), "{t}");
    assert!(t.contains("unsafe fn try_read_out ( out_ptr : Self :: OutPtr ) -> co3 :: Result < Self > { "), "{t}");
}

#[test]
fn a_tuple_struct_binds_numbered_fields() {
    let empty: Vec<Tok> = Vec::new();
    let fields = vec![field(None, "u8")];
    let t = text(&derive_ffi_type_for_no_repr_struct("T", FieldStyle::Tuple, &fields, &empty, &empty, &empty, &empty, &empty, &empty, true));
    assert!(t.contains("let Self ( field_0 ) = self ; __co3__ReprCT ( co3 :: Encode :: encode ( field_0 , & mut store . 0 ) ) "), "{t}");
    assert!(t.contains("Ok ( Self ( co3 :: Decode :: decode ( source . 0 , & mut store . 0 ) ? ) ) "), "{t}");
    assert!(!t.contains("out_ptr"), "{t}");
}

#[test]
fn a_unit_struct_has_nothing_to_encode() {
    let empty: Vec<Tok> = Vec::new();
    let t = text(&derive_ffi_type_for_no_repr_struct("U", FieldStyle::Unit, &Vec::new(), &empty, &empty, &empty, &empty, &empty, &empty, true));
    assert!(t.contains("type Store = ( ) ; "), "{t}");
    assert!(t.contains("where Self : '_išč { __co3__ReprCU } "), "{t}");
    assert!(t.contains("{ Ok ( Self ) } "), "{t}");
    assert!(t.contains("impl co3 :: niche :: Ir for U { type Type = co3 :: niche :: WithoutNiche ; } "), "{t}");
}
