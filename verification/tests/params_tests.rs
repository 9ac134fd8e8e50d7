use co3_derive::params::rewrite_receiver_params;
use co3_derive::tokens::{Delimiter, Tok};

fn ident(s: &str) -> Tok {
    Tok::Ident(s.to_string())
}

fn p(c: char) -> Tok {
    Tok::Punct(c, false)
}

fn by_val() -> Vec<Tok> {
    vec![p('#'), Tok::Group(Delimiter::Bracket, vec![ident("by_val")])]
}

#[test]
fn move_marks_the_parameter_by_val() {
    // move x: Foo
    let out = rewrite_receiver_params(&vec![ident("move"), ident("x"), p(':'), ident("Foo")]);
    let mut expected = by_val();
    expected.extend(vec![ident("x"), p(':'), ident("Foo")]);
    assert_eq!(out, expected);
}

#[test]
fn move_keeps_an_existing_by_val() {
    let mut input = by_val();
    input.extend(vec![ident("move"), ident("x"), p(':'), ident("Foo")]);
    let mut expected = by_val();
    expected.extend(vec![ident("x"), p(':'), ident("Foo")]);
    assert_eq!(rewrite_receiver_params(&input), expected);
}

#[test]
fn receivers_become_co3_self() {
    // &'a mut self, y: u8,
    let input = vec![
        p('&'),
        Tok::Punct('\'', true),
        ident("a"),
        ident("mut"),
        ident("self"),
        p(','),
        ident("y"),
        p(':'),
        ident("u8"),
        p(','),
    ];
    let expected = vec![
        ident("__co3_self"),
        p(':'),
        p('&'),
        Tok::Punct('\'', true),
        ident("a"),
        ident("mut"),
        ident("Self"),
        p(','),
        ident("y"),
        p(':'),
        ident("u8"),
    ];
    assert_eq!(rewrite_receiver_params(&input), expected);
    // move self
    let mut owned = by_val();
    owned.extend(vec![ident("__co3_self"), p(':'), ident("Self")]);
    assert_eq!(rewrite_receiver_params(&vec![ident("move"), ident("self")]), owned);
    // self: Box<Self>
    let typed = vec![ident("self"), p(':'), ident("Box"), p('<'), ident("Self"), p('>')];
    let expected_typed = vec![ident("__co3_self"), p(':'), ident("Box"), p('<'), ident("Self"), p('>')];
    assert_eq!(rewrite_receiver_params(&typed), expected_typed);
}

#[test]
fn commas_inside_angle_brackets_stay_in_the_parameter() {
    let input = vec![ident("m"), p(':'), ident("Map"), p('<'), ident("K"), p(','), ident("V"), p('>')];
    assert_eq!(rewrite_receiver_params(&input), input);
}
