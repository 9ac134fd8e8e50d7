use co3_derive::symbol_attrs::{ensure_symbol_name_on_fn, ensure_symbol_name_on_impl_fn, ensure_symbol_name_on_static};
use co3_derive::tokens::{Attr, AttrMeta, Tok};

fn symbol_name(text: &str) -> Attr {
    Attr { path: vec!["symbol_name".to_string()], meta: AttrMeta::NameValue(vec![Tok::Literal(text.to_string())]) }
}

#[test]
fn a_free_function_gets_its_default_name() {
    let mut attrs = vec![];
    ensure_symbol_name_on_fn(&mut attrs, "geometry", "area", &vec!["T".to_string()]);
    assert_eq!(attrs, vec![symbol_name("\"geometry__area__{T}\"")]);
}

#[test]
fn a_written_symbol_name_is_kept() {
    let mut attrs = vec![symbol_name("\"mine\"")];
    ensure_symbol_name_on_fn(&mut attrs, "geometry", "area", &vec![]);
    assert_eq!(attrs, vec![symbol_name("\"mine\"")]);
}

#[test]
fn a_method_name_holds_trait_and_self_type() {
    let mut attrs = vec![];
    ensure_symbol_name_on_impl_fn(&mut attrs, "geometry", Some("Shape"), "Circle", "area", &vec![]);
    assert_eq!(attrs, vec![symbol_name("\"geometry__Shape__Circle__area\"")]);
    let mut plain = vec![];
    ensure_symbol_name_on_impl_fn(&mut plain, "geometry", None, "Circle", "new", &vec![]);
    assert_eq!(plain, vec![symbol_name("\"geometry__Circle__new\"")]);
}

#[test]
fn a_static_gets_its_default_name() {
    let mut attrs = vec![];
    ensure_symbol_name_on_static(&mut attrs, "co3", "COUNTER");
    assert_eq!(attrs, vec![symbol_name("\"co3__COUNTER\"")]);
}
