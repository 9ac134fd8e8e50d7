use co3_derive::codegen::{derive_opaque_item, gen_extern_c_bounds, gen_ir_impl, gen_out_ptr_impls, gen_store_types};
use co3_derive::tokens::{Delimiter, Tok};

fn ident(s: &str) -> Tok {
    Tok::Ident(s.to_string())
}

fn colons() -> Vec<Tok> {
    vec![Tok::Punct(':', true), Tok::Punct(':', false)]
}

#[test]
fn small_stores_are_plain_tuples() {
    let (rust, ffi, init) = gen_store_types(2, vec![vec![ident("A")], vec![ident("B")]], vec![vec![ident("C")], vec![ident("D")]]);
    let comma = || Tok::Punct(',', false);
    assert_eq!(rust, vec![Tok::Group(Delimiter::Parenthesis, vec![ident("A"), comma(), ident("B"), comma()])]);
    assert_eq!(ffi, vec![Tok::Group(Delimiter::Parenthesis, vec![ident("C"), comma(), ident("D"), comma()])]);
    assert!(init.is_empty());
}

#[test]
fn large_stores_are_optional_and_filled_in() {
    let stores = || (0..13).map(|i| vec![ident(&format!("S{i}"))]).collect::<Vec<Vec<Tok>>>();
    let (rust, _, init) = gen_store_types(13, stores(), stores());
    assert_eq!(rust[0], ident("Option"));
    assert_eq!(rust[1], Tok::Punct('<', false));
    assert_eq!(rust[3], Tok::Punct('>', false));
    assert_eq!(init[0], ident("let"));
    assert_eq!(init.len(), 8);
}

#[test]
fn an_opaque_type_derives_three_impls() {
    let out = derive_opaque_item("Handle", &vec![], &vec![], &vec![]);
    let mut first = vec![ident("impl"), ident("co3")];
    first.extend(colons());
    first.push(ident("ir"));
    first.extend(colons());
    first.extend(vec![ident("ReprFamily"), ident("for"), ident("Handle")]);
    assert!(out[..first.len()] == first[..]);
    let impls = out.iter().filter(|t| **t == ident("impl")).count();
    assert_eq!(impls, 3);
}

#[test]
fn extern_c_bounds_cover_the_parameterized_fields() {
    let out = gen_extern_c_bounds(&vec![vec![ident("T")], vec![ident("u8")]], &vec![true, false]);
    let mut expected = vec![ident("T"), Tok::Punct(':', false), ident("co3")];
    expected.extend(colons());
    expected.extend(vec![ident("ExternC"), Tok::Punct(',', false)]);
    assert_eq!(out, expected);
}

#[test]
fn ir_impls_name_the_foreign_type() {
    let out = gen_ir_impl("Point", "PointRepr", &vec![vec![ident("u8")]], &vec![false], &vec![], &vec![], &vec![], &vec![]);
    assert_eq!(out.iter().filter(|t| **t == ident("impl")).count(), 3);
    let n = out.len();
    match &out[n - 1] {
        Tok::Group(Delimiter::Brace, body) => {
            assert_eq!(body[..4], [ident("type"), ident("CType"), Tok::Punct('=', false), ident("PointRepr")]);
        }
        other => panic!("unexpected {other:?}"),
    }
}

#[test]
fn out_pointer_impls_hold_for_every_lifetime_without_parameters() {
    let plain = gen_out_ptr_impls("Point", &vec![], &vec![], &vec![], true);
    assert_eq!(plain.iter().filter(|t| **t == ident("impl")).count(), 3);
    assert_eq!(plain.iter().filter(|t| **t == ident("_dummy")).count(), 3);
    let generic = gen_out_ptr_impls("Point", &vec![], &vec![], &vec![], false);
    assert_eq!(generic.iter().filter(|t| **t == ident("_dummy")).count(), 0);
    assert_eq!(plain.len(), generic.len() + 15);
}
