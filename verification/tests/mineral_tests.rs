use co3_derive::mineral::{parse_ffi_type_token_with, read_mineral};
use co3_derive::mineral::{
    ffi_type_token_text, find_single_attr_opt, parse_ffi_type_token, AttrError, ClosureTokens,
    ExprTokens, FfiTypeAttr, FfiTypeFieldAttr, FfiTypeKindAttribute, FfiTypeKindFieldAttribute,
    FfiTypeToken, KindError, MineralError,
};
use co3_derive::tokens::{Attr, AttrMeta, Delimiter, Tok};

fn ident(s: &str) -> Tok {
    Tok::Ident(s.to_string())
}

fn p(c: char) -> Tok {
    Tok::Punct(c, false)
}

fn lit(s: &str) -> Tok {
    Tok::Literal(s.to_string())
}

fn parens(inner: Vec<Tok>) -> Tok {
    Tok::Group(Delimiter::Parenthesis, inner)
}

/// `|x| x.is_ok()`
fn closure() -> Vec<Tok> {
    vec![p('|'), ident("x"), p('|'), ident("x"), p('.'), ident("is_ok"), parens(vec![])]
}

fn is_valid(body: Vec<Tok>) -> Vec<Tok> {
    let mut inner = vec![ident("is_valid"), p('=')];
    inner.extend(body);
    vec![ident("unsafe"), parens(inner)]
}

fn mineral(list: Vec<Tok>) -> Attr {
    Attr { path: vec!["mineral".to_string()], meta: AttrMeta::List(list) }
}

#[test]
fn reads_the_plain_kinds() {
    assert_eq!(parse_ffi_type_token(&vec![ident("opaque")]), Ok(FfiTypeToken::Opaque));
    assert_eq!(parse_ffi_type_token(&vec![ident("local"), p(',')]), Ok(FfiTypeToken::Local));
    assert_eq!(
        parse_ffi_type_token(&vec![ident("unsafe"), parens(vec![ident("non_owning")])]),
        Ok(FfiTypeToken::UnsafeNonOwning)
    );
    assert_eq!(
        parse_ffi_type_token(&vec![ident("opaque"), p(','), ident("local")]),
        Ok(FfiTypeToken::Local)
    );
}

#[test]
fn reads_a_transparent_kind_with_its_niche() {
    assert_eq!(
        parse_ffi_type_token(&is_valid(closure())),
        Ok(FfiTypeToken::Transparent(None, ClosureTokens { group: 1, start: 2 }))
    );
    let mut list = vec![ident("NICHE_VALUE"), p('='), lit("0"), p(',')];
    list.extend(is_valid(closure()));
    assert_eq!(
        parse_ffi_type_token(&list),
        Ok(FfiTypeToken::Transparent(
            Some(ExprTokens { start: 2, end: 3 }),
            ClosureTokens { group: 5, start: 2 }
        ))
    );
}

#[test]
fn a_niche_expression_may_hold_commas_of_generic_arguments() {
    // NICHE_VALUE = Foo::<A, B>::X, unsafe(is_valid = |x| x.is_ok())
    let mut list = vec![
        ident("NICHE_VALUE"),
        p('='),
        ident("Foo"),
        Tok::Punct(':', true),
        p(':'),
        p('<'),
        ident("A"),
        p(','),
        ident("B"),
        p('>'),
        Tok::Punct(':', true),
        p(':'),
        ident("X"),
        p(','),
    ];
    list.extend(is_valid(closure()));
    assert_eq!(
        parse_ffi_type_token(&list),
        Ok(FfiTypeToken::Transparent(
            Some(ExprTokens { start: 2, end: 13 }),
            ClosureTokens { group: 15, start: 2 }
        ))
    );
}

#[test]
fn reports_malformed_lists() {
    assert_eq!(parse_ffi_type_token(&vec![]), Err(MineralError::ExpectedKind));
    let mut list = vec![ident("opaque"), p(',')];
    list.extend(is_valid(closure()));
    assert_eq!(parse_ffi_type_token(&list), Err(MineralError::TokensAfterKind));
    assert_eq!(
        parse_ffi_type_token(&vec![ident("NICHE_VALUE"), p('='), lit("1")]),
        Err(MineralError::NicheWithoutIsValid)
    );
    assert_eq!(
        parse_ffi_type_token(&vec![ident("foo")]),
        Err(MineralError::UnknownKind { token: 0, name: "foo".to_string() })
    );
    assert_eq!(parse_ffi_type_token(&vec![ident("unsafe")]), Err(MineralError::ExpectedUnsafeGroup { token: 0 }));
    assert_eq!(
        parse_ffi_type_token(&vec![ident("unsafe"), parens(vec![ident("bar")])]),
        Err(MineralError::UnknownUnsafeKind { token: 1, name: "bar".to_string() })
    );
    assert_eq!(
        parse_ffi_type_token(&vec![ident("unsafe"), parens(vec![ident("non_owning"), ident("x")])]),
        Err(MineralError::NonOwningNotAlone { token: 1 })
    );
    assert_eq!(
        parse_ffi_type_token(&vec![ident("unsafe"), parens(vec![ident("self")])]),
        Err(MineralError::ExpectedUnsafeKind { token: 1 })
    );
    assert_eq!(
        parse_ffi_type_token(&vec![ident("opaque"), ident("local")]),
        Err(MineralError::ExpectedComma { token: 1 })
    );
    assert_eq!(parse_ffi_type_token(&vec![lit("\"x\"")]), Err(MineralError::ExpectedIdent { token: 0 }));
    assert_eq!(
        parse_ffi_type_token(&vec![ident("unsafe"), parens(vec![ident("is_valid"), p('|')])]),
        Err(MineralError::ExpectedEq { token: 1 })
    );
    let mut body = closure();
    body.push(ident("extra"));
    assert_eq!(parse_ffi_type_token(&is_valid(body)), Err(MineralError::TokensAfterClosure { token: 1 }));
    match parse_ffi_type_token(&is_valid(vec![lit("5")])) {
        Err(MineralError::InvalidClosure { token: 1, message }) => assert!(!message.is_empty()),
        other => panic!("unexpected {:?}", other),
    }
    match parse_ffi_type_token(&vec![ident("NICHE_VALUE"), p('='), p(',')]) {
        Err(MineralError::InvalidExpression { token: 2, message }) => assert!(!message.is_empty()),
        other => panic!("unexpected {:?}", other),
    }
}

#[test]
fn error_messages() {
    assert_eq!(MineralError::ExpectedKind.message(), "expected ffi type kind");
    assert_eq!(
        MineralError::UnknownKind { token: 0, name: "foo".to_string() }.message(),
        "unknown type kind: foo"
    );
    assert_eq!(
        MineralError::UnknownUnsafeKind { token: 1, name: "bar".to_string() }.message(),
        "unknown unsafe ffi type kind: bar"
    );
    assert_eq!(MineralError::ExpectedComma { token: 1 }.message(), "expected `,`");
    assert_eq!(
        MineralError::NicheWithoutIsValid.message(),
        "expected `unsafe(is_valid = ...)` when specifying `NICHE_VALUE`"
    );
}

#[test]
fn kinds_belong_to_their_place() {
    assert_eq!(FfiTypeKindAttribute::parse(&vec![ident("opaque")]), Ok(FfiTypeKindAttribute::Opaque));
    let non_owning = vec![ident("unsafe"), parens(vec![ident("non_owning")])];
    assert_eq!(
        FfiTypeKindAttribute::parse(&non_owning),
        Err(KindError::Misplaced(FfiTypeToken::UnsafeNonOwning))
    );
    assert_eq!(
        FfiTypeKindFieldAttribute::parse(&non_owning),
        Ok(FfiTypeKindFieldAttribute::UnsafeNonOwning)
    );
    assert_eq!(
        FfiTypeKindFieldAttribute::parse(&vec![ident("local")]),
        Err(KindError::Misplaced(FfiTypeToken::Local))
    );
}

#[test]
fn reads_the_attribute_of_a_type_or_field() {
    let doc = Attr { path: vec!["doc".to_string()], meta: AttrMeta::Path };
    let attrs = vec![doc, mineral(vec![ident("opaque")])];
    assert_eq!(FfiTypeAttr::from_attributes(&attrs), Ok(FfiTypeAttr { kind: Some(FfiTypeKindAttribute::Opaque) }));
    assert_eq!(FfiTypeFieldAttr::from_attributes(&vec![]), Ok(FfiTypeFieldAttr { kind: None }));
    let field = vec![mineral(vec![ident("unsafe"), parens(vec![ident("non_owning")])])];
    assert_eq!(
        FfiTypeFieldAttr::from_attributes(&field),
        Ok(FfiTypeFieldAttr { kind: Some(FfiTypeKindFieldAttribute::UnsafeNonOwning) })
    );
    let errors = FfiTypeAttr::from_attributes(&field).unwrap_err();
    assert_eq!(
        errors,
        vec![AttrError::Kind { attr: 0, error: KindError::Misplaced(FfiTypeToken::UnsafeNonOwning) }]
    );
    assert_eq!(
        errors[0].message("mineral", &field, false),
        "`#[mineral(unsafe(non_owning))]` cannot be used on a type"
    );
}

#[test]
fn reports_duplicate_and_non_list_attributes() {
    let attrs = vec![
        mineral(vec![ident("opaque")]),
        mineral(vec![ident("local")]),
        mineral(vec![ident("local")]),
    ];
    assert_eq!(find_single_attr_opt("mineral", &attrs), (Some(0), vec![1, 2]));
    let errors = FfiTypeAttr::from_attributes(&attrs).unwrap_err();
    assert_eq!(errors, vec![AttrError::Duplicate { attrs: vec![1, 2] }]);
    assert_eq!(errors[0].message("mineral", &attrs, false), "Only one #[mineral] attribute is allowed!");
    let attrs = vec![Attr { path: vec!["mineral".to_string()], meta: AttrMeta::Path }];
    let errors = FfiTypeFieldAttr::from_attributes(&attrs).unwrap_err();
    assert_eq!(errors, vec![AttrError::NotList { attr: 0 }]);
    assert_eq!(
        errors[0].message("mineral", &attrs, true),
        "Expected #[mineral(...)] attribute to be a list"
    );
}

#[test]
fn shows_a_transparent_kind_as_written() {
    let mut list = vec![ident("NICHE_VALUE"), p('='), lit("0"), p(',')];
    list.extend(is_valid(closure()));
    let token = parse_ffi_type_token(&list).unwrap();
    assert_eq!(
        ffi_type_token_text(&list, token),
        "#[mineral(NICHE_VALUE = 0, unsafe(is_valid = | x | x . is_ok ()))]"
    );
    let attrs = vec![mineral(list)];
    let errors = FfiTypeFieldAttr::from_attributes(&attrs).unwrap_err();
    assert_eq!(
        errors[0].message("mineral", &attrs, true),
        "`#[mineral(NICHE_VALUE = 0, unsafe(is_valid = | x | x . is_ok ()))]` cannot be used on a field"
    );
}

#[test]
fn reading_with_syns_answers_gives_what_parsing_gives() {
    let mut list = vec![ident("NICHE_VALUE"), p('='), lit("0"), p(',')];
    list.extend(is_valid(closure()));
    let rd = read_mineral(&list);
    assert_eq!(rd.expr.len(), list.len() + 1);
    assert_eq!(parse_ffi_type_token_with(&list, &rd), parse_ffi_type_token(&list));
}
