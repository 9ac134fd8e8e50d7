use co3_derive::export_type::{gen_export_type_block, ExportTypeParts};
use co3_derive::tokens::{Delimiter, Tok};

fn text(toks: &[Tok]) -> String {
    let mut out = String::new();
    for t in toks {
        match t {
            Tok::Ident(s) | Tok::Literal(s) => {
                out.push_str(s);
                out.push(' ');
            }
            Tok::Punct(c, joint) => {
                out.push(*c);
                if !*joint {
                    out.push(' ');
                }
            }
            Tok::Group(d, inner) => {
                let (open, close) = match d {
                    Delimiter::Parenthesis => ("( ", ") "),
                    Delimiter::Brace => ("{ ", "} "),
                    Delimiter::Bracket => ("[ ", "] "),
                    Delimiter::Invisible => ("", ""),
                };
                out.push_str(open);
                out.push_str(&text(inner));
                out.push_str(close);
            }
        }
    }
    out
}

fn id(s: &str) -> Vec<Tok> {
    vec![Tok::Ident(s.to_string())]
}

fn parts() -> ExportTypeParts {
    ExportTypeParts {
        cfg_attrs: id("CFG"),
        opaque: id("OPAQUE"),
        tag_impl: id("TAG"),
        drop: id("DROP"),
        size_check: id("SIZE"),
        drop_check: id("DROPCHECK"),
        dispatch: id("METHODS"),
    }
}

#[test]
fn an_exported_type_crosses_the_boundary_as_itself() {
    let empty: Vec<Tok> = Vec::new();
    let t = text(&gen_export_type_block("Handle", &empty, &empty, &empty, &parts()));
    assert!(t.starts_with("CFG const _ : ( ) = { OPAQUE TAG DROP SIZE DROPCHECK unsafe impl co3 :: stored :: EncodeOwned for Handle { "), "{t}");
    assert!(t.contains("type Store = ( ) ; # [ inline ( always ) ] fn soft_encode < 'itm > ( self , ( ) : & mut ( ) ) -> Self :: CType where Self : 'itm { self } } "), "{t}");
    assert!(t.contains("unsafe impl < '_dšč > co3 :: stored :: DecodeOwned < '_dšč > for Handle { "), "{t}");
    assert!(t.contains("unsafe fn soft_decode < '_išč : '_dšč > ( source : Self :: CType , ( ) : & mut ( ) ) -> Option < Self > { Some ( source ) } } "), "{t}");
    assert!(t.contains("impl co3 :: Encode for Handle { } impl co3 :: Decode < '_ > for Handle { } "), "{t}");
    assert!(t.contains("unsafe impl co3 :: borrow :: BorrowCast for Handle { type AsConst = Self ; } "), "{t}");
    assert!(t.ends_with("unsafe impl co3 :: borrow :: BorrowCastMut for Handle { type AsMut = Self ; } METHODS } ; "), "{t}");
}

#[test]
fn a_generic_exported_type_decodes_with_its_lifetime_first() {
    let ig = vec![Tok::Punct('<', false), Tok::Ident("T".to_string()), Tok::Punct('>', false)];
    let t = text(&gen_export_type_block("H", &ig, &ig, &Vec::new(), &parts()));
    assert!(t.contains("unsafe impl < '_dšč , T > co3 :: stored :: DecodeOwned < '_dšč > for H < T > { "), "{t}");
    assert!(t.contains("unsafe impl < T > co3 :: stored :: EncodeOwned for H < T > { "), "{t}");
}
