use co3_derive::decl::{fn_decl_end, impl_item_spans, DeclError, ImplItemKind, ImplItemSpan};
use co3_derive::tokens::{Delimiter, Tok};

fn id(s: &str) -> Tok {
    Tok::Ident(s.to_string())
}

fn p(c: char) -> Tok {
    Tok::Punct(c, false)
}

fn group(d: Delimiter, inner: Vec<Tok>) -> Tok {
    Tok::Group(d, inner)
}

/// `fn name<const N: usize>(value: Foo<{ N + 1 }>);`
fn braced_const_generic_fn() -> Vec<Tok> {
    vec![
        id("fn"),
        id("name"),
        p('<'),
        id("const"),
        id("N"),
        p(':'),
        id("usize"),
        p('>'),
        group(
            Delimiter::Parenthesis,
            vec![
                id("value"),
                p(':'),
                id("Foo"),
                p('<'),
                group(Delimiter::Brace, vec![id("N"), p('+'), Tok::Literal("1".to_string())]),
                p('>'),
            ],
        ),
        p(';'),
    ]
}

#[test]
fn parses_braced_const_generic_in_free_fn_signature() {
    let toks = braced_const_generic_fn();
    assert_eq!(fn_decl_end(&toks, 0), Ok(9));
}

#[test]
fn parses_braced_const_generic_in_impl_method_signature() {
    // impl<const N: usize> Trait for Value { fn name(value: Foo<{ N + 1 }>); }
    let toks = braced_const_generic_fn();
    assert_eq!(
        impl_item_spans(&toks),
        Ok(vec![ImplItemSpan { start: 0, head: 0, kind: ImplItemKind::Fn, end: 9 }])
    );
}

#[test]
fn a_function_body_is_refused() {
    // fn name() {}
    let toks = vec![id("fn"), id("name"), group(Delimiter::Parenthesis, vec![]), group(Delimiter::Brace, vec![])];
    assert_eq!(fn_decl_end(&toks, 0), Err(DeclError::BodyNotAllowed { at: 3 }));
    assert_eq!(DeclError::BodyNotAllowed { at: 3 }.message(), "fn bodies are not allowed in declarations");
}

#[test]
fn a_missing_semicolon_is_refused() {
    let toks = vec![id("fn"), id("name"), group(Delimiter::Parenthesis, vec![])];
    assert_eq!(fn_decl_end(&toks, 0), Err(DeclError::UnexpectedEnd { at: 3 }));
}

#[test]
fn impl_items_are_told_apart() {
    // ; type A = u8; const N: usize = 1; raw fn f(); #[by_val] pub(crate) fn g(&self); const fn h();
    let toks = vec![
        p(';'),
        id("type"),
        id("A"),
        p('='),
        id("u8"),
        p(';'),
        id("const"),
        id("N"),
        p(':'),
        id("usize"),
        p('='),
        Tok::Literal("1".to_string()),
        p(';'),
        id("raw"),
        id("fn"),
        id("f"),
        group(Delimiter::Parenthesis, vec![]),
        p(';'),
        p('#'),
        group(Delimiter::Bracket, vec![id("by_val")]),
        id("pub"),
        group(Delimiter::Parenthesis, vec![id("crate")]),
        id("fn"),
        id("g"),
        group(Delimiter::Parenthesis, vec![p('&'), id("self")]),
        p(';'),
        id("const"),
        id("fn"),
        id("h"),
        group(Delimiter::Parenthesis, vec![]),
        p(';'),
    ];
    assert_eq!(
        impl_item_spans(&toks),
        Ok(vec![
            ImplItemSpan { start: 1, head: 1, kind: ImplItemKind::Type, end: 5 },
            ImplItemSpan { start: 6, head: 6, kind: ImplItemKind::Const, end: 12 },
            ImplItemSpan { start: 13, head: 14, kind: ImplItemKind::RawFn, end: 17 },
            ImplItemSpan { start: 18, head: 22, kind: ImplItemKind::Fn, end: 25 },
            ImplItemSpan { start: 26, head: 26, kind: ImplItemKind::Fn, end: 30 },
        ])
    );
}

#[test]
fn an_impl_method_with_a_body_is_refused() {
    // fn f() {} fn g();
    let toks = vec![
        id("fn"),
        id("f"),
        group(Delimiter::Parenthesis, vec![]),
        group(Delimiter::Brace, vec![]),
        id("fn"),
        id("g"),
        group(Delimiter::Parenthesis, vec![]),
        p(';'),
    ];
    assert_eq!(impl_item_spans(&toks), Err(DeclError::BodyNotAllowed { at: 3 }));
}

#[test]
fn the_head_comes_after_attributes_and_visibility() {
    // #[a] pub(crate) fn f();
    let toks = vec![
        p('#'),
        group(Delimiter::Bracket, vec![id("a")]),
        id("pub"),
        group(Delimiter::Parenthesis, vec![id("crate")]),
        id("fn"),
        id("f"),
        group(Delimiter::Parenthesis, vec![]),
        p(';'),
    ];
    assert_eq!(co3_derive::decl::item_head(&toks, 0), 4);
    // pub (u8) is not a restriction: the head is the group.
    let tuple = vec![id("pub"), group(Delimiter::Parenthesis, vec![id("u8")])];
    assert_eq!(co3_derive::decl::item_head(&tuple, 0), 1);
}
