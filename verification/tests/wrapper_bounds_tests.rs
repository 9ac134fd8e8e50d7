use co3_derive::tokens::{Delimiter, Tok};
use co3_derive::wrapper_bounds::{dispatch_wrapper_bounds, UnpackPair, WrapperArg};

fn text(toks: &[Tok]) -> String {
    let mut out = String::new();
    for t in toks {
        match t {
            Tok::Ident(s) | Tok::Literal(s) => {
                out.push_str(s);
                out.push(' ');
            }
            Tok::Punct(c, joint) => {
                out.push(*c);
                if !*joint {
                    out.push(' ');
                }
            }
            Tok::Group(d, inner) => {
                let (open, close) = match d {
                    Delimiter::Parenthesis => ("( ", ") "),
                    Delimiter::Brace => ("{ ", "} "),
                    Delimiter::Bracket => ("[ ", "] "),
                    Delimiter::Invisible => ("", ""),
                };
                out.push_str(open);
                out.push_str(&text(inner));
                out.push_str(close);
            }
        }
    }
    out
}

fn id(s: &str) -> Vec<Tok> {
    vec![Tok::Ident(s.to_string())]
}

fn arg(ty: &str) -> WrapperArg {
    WrapperArg { ty: id(ty), by_value: true, unpack_target: None, unpack_pair: None, tag_id: false, mentions: false, soft: false }
}

fn texts(bounds: &[Vec<Tok>]) -> Vec<String> {
    bounds.iter().map(|b| text(b).trim_end().to_string()).collect()
}

#[test]
fn a_dispatched_type_is_tagged_with_its_id_representation() {
    let b = dispatch_wrapper_bounds(&id("co3"), &id("Abi"), &vec![("T".to_string(), id("u32"))], &vec![], None);
    assert_eq!(
        texts(&b),
        vec![
            "T : co3 :: tag :: Tagged".to_string(),
            "< T as co3 :: tag :: TagFamily > :: Kind : co3 :: Encode < CType = u32 , Store : co3 :: stored :: EmptyStore >".to_string(),
        ]
    );
}

#[test]
fn arguments_that_mention_a_dispatched_type_encode() {
    let mut by_value = arg("X");
    by_value.mentions = true;
    let mut soft = arg("Y");
    soft.mentions = true;
    soft.soft = true;
    let mut borrowed = arg("Z");
    borrowed.mentions = true;
    borrowed.by_value = false;
    let mut tag = arg("W");
    tag.mentions = true;
    tag.tag_id = true;
    let plain = arg("u8");
    let b = dispatch_wrapper_bounds(&id("co3"), &id("Abi"), &vec![], &vec![by_value, soft, borrowed, tag, plain], Some(&id("R")));
    assert_eq!(
        texts(&b),
        vec![
            "X : co3 :: Encode < Store : co3 :: stored :: EmptyStore >".to_string(),
            "Y : co3 :: Encode".to_string(),
            "Z : co3 :: ExternC + co3 :: borrow :: Borrow".to_string(),
            "< Z as co3 :: ExternC > :: CType : co3 :: borrow :: BorrowCast < AsConst : Sized >".to_string(),
            "for < '__co3_borrow > < Z as co3 :: borrow :: Borrow > :: Borrowed < '__co3_borrow > : co3 :: Encode < CType = < < Z as co3 :: ExternC > :: CType as co3 :: borrow :: BorrowCast > :: AsConst , Store : co3 :: stored :: EmptyStore , >".to_string(),
            "for < 'a > R : co3 :: Decode < 'a , Store : co3 :: stored :: EmptyStore >".to_string(),
        ]
    );
}

#[test]
fn unpacked_arguments_bound_their_parts() {
    let mut one = arg("S");
    one.by_value = false;
    one.unpack_target = Some(id("P"));
    let mut two = arg("V");
    two.unpack_pair = Some(UnpackPair {
        part1: None,
        part2: Some(id("L")),
        source1: id("D"),
        source2: id("N"),
        abi1: id("A1"),
        abi2: id("A2"),
    });
    let b = dispatch_wrapper_bounds(&id("co3"), &id("Abi"), &vec![], &vec![one, two], None);
    assert_eq!(
        texts(&b),
        vec![
            "for < '__co3_unpack > < S as co3 :: borrow :: Borrow > :: Borrowed < '__co3_unpack > : co3 :: slice :: Unpack < < P as co3 :: ExternC > :: CType >".to_string(),
            "P : co3 :: ExternC".to_string(),
            "< P as co3 :: ExternC > :: CType : co3 :: CFnArg < Abi >".to_string(),
            "D : co3 :: CFnArg < Abi >".to_string(),
            "L : co3 :: ExternC".to_string(),
            "< L as co3 :: ExternC > :: CType : co3 :: CFnArg < Abi >".to_string(),
            "V : co3 :: slice :: Unpack2 < D , N >".to_string(),
            "A1 : co3 :: CFnArg < Abi >".to_string(),
            "A2 : co3 :: CFnArg < Abi >".to_string(),
            "V : co3 :: Encode < Store : co3 :: stored :: EmptyStore >".to_string(),
        ]
    );
}
