use co3_derive::repr::{
    parse_repr_list, Repr, ReprAlignment, ReprError, ReprKind, ReprPrimitive, ReprToken,
    SpannedReprToken,
};
use co3_derive::tokens::{Attr, AttrMeta, Delimiter, Tok};

fn ident(s: &str) -> Tok {
    Tok::Ident(s.to_string())
}

fn comma() -> Tok {
    Tok::Punct(',', false)
}

fn lit(s: &str) -> Tok {
    Tok::Literal(s.to_string())
}

fn parens(inner: Vec<Tok>) -> Tok {
    Tok::Group(Delimiter::Parenthesis, inner)
}

fn aligned_list(n: &str) -> Vec<Tok> {
    vec![ident("aligned"), parens(vec![lit(n)])]
}

fn repr(list: Vec<Tok>) -> Attr {
    Attr { path: vec!["repr".to_string()], meta: AttrMeta::List(list) }
}

fn parse_repr(attrs: Vec<Attr>) -> Result<Repr, Vec<ReprError>> {
    Repr::from_attributes(&attrs)
}

fn assert_repr_err(attrs: Vec<Attr>, message: &str) {
    let errors = parse_repr(attrs).unwrap_err();
    assert_eq!(errors.len(), 1);
    assert_eq!(errors[0].message(), message, "The error message does not match the expected one");
}

#[test]
fn repr_empty() {
    let attrs = vec![Attr { path: vec!["aboba".to_string()], meta: AttrMeta::Path }];
    assert_eq!(parse_repr(attrs).unwrap().kind, None);
}

#[test]
fn repr_c() {
    assert_eq!(parse_repr(vec![repr(vec![ident("C")])]).unwrap().kind, Some(ReprKind::C(None)));
}

#[test]
fn aligned() {
    assert_eq!(parse_repr(vec![repr(aligned_list("4"))]).unwrap().kind, None);
}

#[test]
fn primitive() {
    assert_eq!(
        parse_repr(vec![repr(vec![ident("u8")])]).unwrap().kind,
        Some(ReprKind::Primitive(ReprPrimitive::U8))
    );
}

#[test]
fn kind_and_alignment() {
    let mut list = vec![ident("C"), comma()];
    list.extend(aligned_list("4"));
    assert_eq!(parse_repr(vec![repr(list)]).unwrap().kind, Some(ReprKind::C(None)));
}

#[test]
fn repr_c_with_primitive() {
    assert_eq!(
        parse_repr(vec![repr(vec![ident("C"), comma(), ident("u8")])]).unwrap().kind,
        Some(ReprKind::C(Some(ReprPrimitive::U8)))
    );
}

#[test]
fn err_multiple_repr_attributes() {
    assert_repr_err(vec![repr(vec![ident("C")]), repr(vec![ident("C")])], "Multiple repr attributes");
    assert_repr_err(vec![repr(vec![ident("C")]), repr(vec![ident("u32")])], "Multiple repr attributes");
    assert_repr_err(vec![repr(aligned_list("4")), repr(aligned_list("4"))], "Multiple repr attributes");
    assert_repr_err(vec![repr(aligned_list("4")), repr(aligned_list("8"))], "Multiple repr attributes");
}

#[test]
fn err_duplicate_kind_within_attribute() {
    assert_repr_err(
        vec![repr(vec![ident("C"), comma(), ident("transparent")])],
        "Duplicate repr kind within attribute",
    );
    assert_repr_err(
        vec![repr(vec![ident("u8"), comma(), ident("u16")])],
        "Duplicate repr kind within attribute",
    );
}

#[test]
fn err_duplicate_alignment_within_attribute() {
    let mut list = aligned_list("4");
    list.push(comma());
    list.push(ident("packed"));
    assert_repr_err(vec![repr(list)], "Duplicate repr alignment within attribute");
    let mut list = aligned_list("4");
    list.push(comma());
    list.extend(aligned_list("8"));
    assert_repr_err(vec![repr(list)], "Duplicate repr alignment within attribute");
}

#[test]
fn incomplete_alignment_defaults_to_one() {
    let cases = vec![
        vec![ident("aligned")],
        vec![ident("aligned"), parens(vec![])],
        vec![ident("aligned"), parens(vec![lit("4"), comma()])],
        vec![ident("aligned"), parens(vec![lit("4"), comma(), lit("8")])],
    ];
    for list in cases {
        assert_eq!(parse_repr(vec![repr(list.clone_list())]).unwrap().kind, None);
        let items = parse_repr_list(&list).unwrap();
        assert_eq!(items.len(), 1);
        assert_eq!(items[0].token, ReprToken::Alignment(ReprAlignment::Aligned(1)));
    }
}

#[test]
fn err_unknown_kind() {
    assert_repr_err(vec![repr(vec![ident("unknown")])], "Unrecognized repr kind");
}

trait CloneList {
    fn clone_list(&self) -> Vec<Tok>;
}

impl CloneList for Vec<Tok> {
    fn clone_list(&self) -> Vec<Tok> {
        self.iter().map(clone_tok).collect()
    }
}

fn clone_tok(t: &Tok) -> Tok {
    match t {
        Tok::Ident(s) => Tok::Ident(s.clone()),
        Tok::Punct(c, j) => Tok::Punct(*c, *j),
        Tok::Literal(s) => Tok::Literal(s.clone()),
        Tok::Group(d, inner) => Tok::Group(*d, inner.iter().map(clone_tok).collect()),
    }
}

#[test]
fn aligned_value_is_read_from_its_literal() {
    let items = parse_repr_list(&aligned_list("16")).unwrap();
    assert_eq!(
        items,
        vec![SpannedReprToken { start: 0, token: ReprToken::Alignment(ReprAlignment::Aligned(16)) }]
    );
    let items = parse_repr_list(&aligned_list("0x10")).unwrap();
    assert_eq!(items[0].token, ReprToken::Alignment(ReprAlignment::Aligned(16)));
    let items = parse_repr_list(&aligned_list("\"4\"")).unwrap();
    assert_eq!(items[0].token, ReprToken::Alignment(ReprAlignment::Aligned(1)));
    let items = parse_repr_list(&aligned_list("4294967296")).unwrap();
    assert_eq!(items[0].token, ReprToken::Alignment(ReprAlignment::Aligned(1)));
}

#[test]
fn items_carry_their_start_tokens() {
    let mut list = vec![ident("C"), comma()];
    list.extend(aligned_list("8"));
    list.push(comma());
    list.push(ident("packed"));
    list.push(comma());
    let items = parse_repr_list(&list).unwrap();
    assert_eq!(
        items,
        vec![
            SpannedReprToken { start: 0, token: ReprToken::Kind(ReprKind::C(None)) },
            SpannedReprToken { start: 2, token: ReprToken::Alignment(ReprAlignment::Aligned(8)) },
            SpannedReprToken { start: 5, token: ReprToken::Alignment(ReprAlignment::Packed) },
        ]
    );
}

#[test]
fn list_errors_name_their_token() {
    assert_eq!(
        parse_repr_list(&vec![ident("C"), ident("u8")]).unwrap_err(),
        ReprError::ExpectedComma { token: 1 }
    );
    assert_eq!(
        parse_repr_list(&vec![comma(), ident("C")]).unwrap_err(),
        ReprError::ExpectedReprKind { token: 0 }
    );
    assert_eq!(
        parse_repr_list(&vec![ident("C"), comma(), ident("Rust")]).unwrap_err(),
        ReprError::UnrecognizedReprKind { token: 2 }
    );
    assert_eq!(ReprError::ExpectedComma { token: 1 }.message(), "expected `,`");
    assert_eq!(ReprError::ExpectedReprKind { token: 0 }.message(), "Expected repr kind");
}

#[test]
fn primitive_then_c_combines() {
    assert_eq!(
        parse_repr(vec![repr(vec![ident("i64"), comma(), ident("C")])]).unwrap().kind,
        Some(ReprKind::C(Some(ReprPrimitive::I64)))
    );
    assert_eq!(
        parse_repr(vec![repr(vec![ident("transparent")])]).unwrap().kind,
        Some(ReprKind::Transparent)
    );
}

#[test]
fn every_later_repr_attribute_is_reported() {
    let errors = parse_repr(vec![
        repr(vec![ident("C")]),
        Attr { path: vec!["doc".to_string()], meta: AttrMeta::Path },
        repr(vec![ident("u8")]),
        repr(vec![ident("u16")]),
    ])
    .unwrap_err();
    assert_eq!(
        errors,
        vec![
            ReprError::MultipleReprAttributes { attr: 2 },
            ReprError::MultipleReprAttributes { attr: 3 },
        ]
    );
}

#[test]
fn repr_without_list_declares_nothing() {
    let attrs = vec![Attr { path: vec!["repr".to_string()], meta: AttrMeta::Path }];
    assert_eq!(parse_repr(attrs).unwrap().kind, None);
}

#[test]
fn primitive_names_round_trip() {
    for p in [
        ReprPrimitive::U8,
        ReprPrimitive::I8,
        ReprPrimitive::U16,
        ReprPrimitive::I16,
        ReprPrimitive::U32,
        ReprPrimitive::I32,
        ReprPrimitive::I64,
        ReprPrimitive::U64,
    ] {
        assert_eq!(ReprPrimitive::from_name(p.name()), Some(p));
    }
    assert_eq!(ReprPrimitive::U16.name(), "u16");
    assert_eq!(ReprPrimitive::from_name("usize"), None);
}
