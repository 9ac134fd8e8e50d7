use co3_derive::poly_body::rewrite_dispatch_body;
use co3_derive::tokens::{Delimiter, Tok};

fn text(toks: &[Tok]) -> String {
    let mut out = String::new();
    for t in toks {
        match t {
            Tok::Ident(s) | Tok::Literal(s) => {
                out.push_str(s);
                out.push(' ');
            }
            Tok::Punct(c, joint) => {
                out.push(*c);
                if !*joint {
                    out.push(' ');
                }
            }
            Tok::Group(d, inner) => {
                let (open, close) = match d {
                    Delimiter::Parenthesis => ("( ", ") "),
                    Delimiter::Brace => ("{ ", "} "),
                    Delimiter::Bracket => ("[ ", "] "),
                    Delimiter::Invisible => ("", ""),
                };
                out.push_str(open);
                out.push_str(&text(inner));
                out.push_str(close);
            }
        }
    }
    out
}

fn turbofish(base: &str, arg: &str) -> Vec<Tok> {
    vec![
        Tok::Ident(base.to_string()),
        Tok::Punct(':', true),
        Tok::Punct(':', false),
        Tok::Punct('<', false),
        Tok::Ident(arg.to_string()),
        Tok::Punct('>', false),
    ]
}

#[test]
fn values_lose_their_turbofish_and_selectors_become_their_type() {
    let mut body = turbofish("v", "K");
    body.push(Tok::Punct(';', false));
    body.push(Tok::Group(Delimiter::Parenthesis, turbofish("S", "K")));
    body.extend(turbofish("other", "K"));
    let selectors = vec![("S".to_string(), vec![Tok::Ident("Concrete".to_string())])];
    let out = rewrite_dispatch_body(&body, &vec!["v".to_string()], &selectors);
    assert_eq!(text(&out), "v ; ( Concrete ) other :: < K > ");
}

#[test]
fn a_turbofish_with_more_than_one_token_stays() {
    let body = vec![
        Tok::Ident("v".to_string()),
        Tok::Punct(':', true),
        Tok::Punct(':', false),
        Tok::Punct('<', false),
        Tok::Ident("K".to_string()),
        Tok::Punct(',', false),
        Tok::Ident("L".to_string()),
        Tok::Punct('>', false),
    ];
    let out = rewrite_dispatch_body(&body, &vec!["v".to_string()], &vec![]);
    assert_eq!(out, body);
}
