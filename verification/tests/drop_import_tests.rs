use co3_derive::drop_import::{drop_selector_assignments, self_tag_bound, SelectorArg};
use co3_derive::tokens::{Delimiter, Tok};

fn text(toks: &[Tok]) -> String {
    let mut out = String::new();
    for t in toks {
        match t {
            Tok::Ident(s) | Tok::Literal(s) => {
                out.push_str(s);
                out.push(' ');
            }
            Tok::Punct(c, joint) => {
                out.push(*c);
                if !*joint {
                    out.push(' ');
                }
            }
            Tok::Group(d, inner) => {
                let (open, close) = match d {
                    Delimiter::Parenthesis => ("( ", ") "),
                    Delimiter::Brace => ("{ ", "} "),
                    Delimiter::Bracket => ("[ ", "] "),
                    Delimiter::Invisible => ("", ""),
                };
                out.push_str(open);
                out.push_str(&text(inner));
                out.push_str(close);
            }
        }
    }
    out
}

fn id(s: &str) -> Vec<Tok> {
    vec![Tok::Ident(s.to_string())]
}

#[test]
fn tag_ids_are_filled_in_from_the_tags_of_their_types() {
    let args = vec![
        (id("x"), SelectorArg::Plain),
        (id("t_id"), SelectorArg::DynType { name: "T".to_string(), id_repr: Some(id("u32")) }),
        (id("u_id"), SelectorArg::DynType { name: "U".to_string(), id_repr: None }),
        (id("s_id"), SelectorArg::DynSelf),
    ];
    let (stmts, tys) = drop_selector_assignments(&args, &id("Decl"), Some(&id("u16")));
    let texts: Vec<String> = stmts.iter().map(|s| text(s)).collect();
    assert_eq!(
        texts,
        vec![
            "let t_id : u32 = { let __co3_tag_id = < T as co3 :: tag :: Tagged > :: TAG ; unsafe { core :: mem :: transmute_copy ( & __co3_tag_id ) } } ; ".to_string(),
            "let s_id : u16 = { let __co3_tag_id = < Decl as co3 :: tag :: Tagged > :: TAG ; unsafe { core :: mem :: transmute_copy ( & __co3_tag_id ) } } ; ".to_string(),
        ]
    );
    assert_eq!(tys, vec![None, Some(id("u32")), None, Some(id("u16"))]);
    assert_eq!(text(&self_tag_bound(&args, &id("Decl"))), "Decl : co3 :: tag :: Tagged , ");
}

#[test]
fn without_a_declared_id_type_the_self_tag_is_left_alone() {
    let args = vec![(id("s_id"), SelectorArg::DynSelf)];
    let (stmts, tys) = drop_selector_assignments(&args, &id("Decl"), None);
    assert!(stmts.is_empty());
    assert_eq!(tys, vec![None]);
    assert!(self_tag_bound(&vec![(id("x"), SelectorArg::Plain)], &id("Decl")).is_empty());
}
