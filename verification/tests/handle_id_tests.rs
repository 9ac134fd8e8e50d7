use co3_derive::dispatch::{
    parse_handle_id_attr, position_message, unavailable_selector_message, validate_default_handle_id_selectors,
    validate_handle_id_positions_for_sig, HandleIdSpec, IdAttrError,
};
use co3_derive::tokens::{Attr, AttrMeta, Tok};
use co3_derive::types::{PathArgs, PathSegment, Ty, TyPath};

fn named(name: &str) -> Ty {
    Ty::Path(TyPath {
        qself: None,
        leading_colon: false,
        segments: vec![PathSegment { ident: name.to_string(), args: PathArgs::Bare }],
    })
}

fn spec(name: &str, at: usize) -> HandleIdSpec {
    HandleIdSpec { arg_name: name.to_string(), selector: named("Env"), at }
}

fn id_attr(toks: Vec<Tok>) -> Attr {
    Attr { path: vec!["id".to_string()], meta: AttrMeta::List(toks) }
}

fn bare(name: &str) -> Attr {
    Attr { path: vec![name.to_string()], meta: AttrMeta::Path }
}

#[test]
fn handle_id_positions_within_the_widened_signature() {
    assert_eq!(validate_handle_id_positions_for_sig(2, &vec![]), Ok(()));
    assert_eq!(validate_handle_id_positions_for_sig(2, &vec![spec("a_id", 0), spec("b_id", 3)]), Ok(()));
    assert_eq!(validate_handle_id_positions_for_sig(2, &vec![spec("a_id", 0), spec("b_id", 4)]), Err(1));
    assert_eq!(validate_handle_id_positions_for_sig(0, &vec![spec("a_id", 7), spec("b_id", 9)]), Err(0));
    assert_eq!(position_message(4, 2, 2), "position 4 is out of bounds(max: 3)");
    assert_eq!(position_message(12, 9, 1), "position 12 is out of bounds(max: 9)");
}

#[test]
fn default_selectors_must_refer_to_handles() {
    let available = vec!["Env".to_string(), "Conn".to_string()];
    assert_eq!(validate_default_handle_id_selectors(&available, &vec!["Conn".to_string()]), Ok(()));
    assert_eq!(
        validate_default_handle_id_selectors(&available, &vec!["Env".to_string(), "Stmt".to_string(), "X".to_string()]),
        Err(1)
    );
    assert_eq!(
        unavailable_selector_message("Stmt"),
        "selector `Stmt` does not refer to a handle in this signature"
    );
}

#[test]
fn id_attribute_is_read_and_removed() {
    let mut attrs = vec![bare("doc"), id_attr(vec![Tok::Ident("u8".to_string())]), bare("other")];
    assert_eq!(parse_handle_id_attr(&mut attrs), Ok(Some(vec![Tok::Ident("u8".to_string())])));
    assert_eq!(attrs, vec![bare("doc"), bare("other")]);
    let mut none = vec![bare("doc")];
    assert_eq!(parse_handle_id_attr(&mut none), Ok(None));
    assert_eq!(none, vec![bare("doc")]);
}

#[test]
fn id_attribute_errors() {
    let mut two = vec![id_attr(vec![Tok::Ident("u8".to_string())]), id_attr(vec![Tok::Ident("u16".to_string())])];
    let e = parse_handle_id_attr(&mut two).unwrap_err();
    assert_eq!(e, IdAttrError::Duplicate { attr: 1 });
    assert_eq!(e.message(), "duplicate `#[id(...)]`");
    assert!(two.is_empty());
    let mut not_a_type = vec![id_attr(vec![Tok::Punct('+', false)])];
    let e = parse_handle_id_attr(&mut not_a_type).unwrap_err();
    assert_eq!(e, IdAttrError::Malformed { attr: 0 });
    assert_eq!(e.message(), "expected `#[id(repr)]`");
    let mut bare_id = vec![bare("id")];
    assert_eq!(parse_handle_id_attr(&mut bare_id), Err(IdAttrError::Malformed { attr: 0 }));
}
