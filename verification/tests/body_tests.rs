use co3_derive::body::rewrite_method_body_tokens;
use co3_derive::tokens::{Delimiter, Tok};

fn ident(s: &str) -> Tok {
    Tok::Ident(s.to_string())
}

fn punct(c: char) -> Tok {
    Tok::Punct(c, false)
}

fn joint(c: char) -> Tok {
    Tok::Punct(c, true)
}

fn mentions_self(toks: &[Tok]) -> bool {
    toks.iter().any(|t| match t {
        Tok::Ident(s) => s == "self",
        Tok::Group(_, inner) => mentions_self(inner),
        _ => false,
    })
}

#[test]
fn renames_self_everywhere() {
    let body = vec![
        ident("self"),
        punct('.'),
        ident("len"),
        Tok::Group(Delimiter::Parenthesis, vec![]),
        punct('+'),
        Tok::Group(
            Delimiter::Brace,
            vec![ident("let"), ident("x"), punct('='), punct('&'), ident("self"), punct(';'), ident("x")],
        ),
    ];
    let out = rewrite_method_body_tokens(&body);
    let expected = vec![
        ident("self_"),
        punct('.'),
        ident("len"),
        Tok::Group(Delimiter::Parenthesis, vec![]),
        punct('+'),
        Tok::Group(
            Delimiter::Brace,
            vec![ident("let"), ident("x"), punct('='), punct('&'), ident("self_"), punct(';'), ident("x")],
        ),
    ];
    assert_eq!(out, expected);
}

#[test]
fn collapses_a_turbofish_on_self() {
    let body = vec![
        ident("self"),
        joint(':'),
        punct(':'),
        punct('<'),
        ident("Vec"),
        punct('<'),
        ident("u8"),
        punct('>'),
        punct('>'),
        punct('.'),
        ident("get"),
        Tok::Group(Delimiter::Parenthesis, vec![]),
    ];
    let out = rewrite_method_body_tokens(&body);
    assert_eq!(
        out,
        vec![ident("self_"), punct('.'), ident("get"), Tok::Group(Delimiter::Parenthesis, vec![])]
    );
}

#[test]
fn an_unclosed_turbofish_ends_the_body() {
    let body = vec![ident("self"), punct(':'), punct(':'), punct('<'), ident("T"), ident("x")];
    assert_eq!(rewrite_method_body_tokens(&body), vec![ident("self_")]);
}

#[test]
fn a_short_self_path_is_renamed_token_by_token() {
    let body = vec![ident("self"), punct(':'), punct(':'), ident("x")];
    assert_eq!(
        rewrite_method_body_tokens(&body),
        vec![ident("self_"), punct(':'), punct(':'), ident("x")]
    );
}

#[test]
fn rewritten_bodies_never_mention_self() {
    let body = vec![
        Tok::Group(Delimiter::Bracket, vec![ident("self"), Tok::Group(Delimiter::Invisible, vec![ident("self")])]),
        ident("self"),
        punct(':'),
        punct(':'),
        punct('<'),
        ident("self"),
        punct('>'),
        Tok::Literal("\"self\"".to_string()),
    ];
    let out = rewrite_method_body_tokens(&body);
    assert!(!mentions_self(&out));
    assert!(mentions_self(&body));
}
