use co3_derive::erased::{read_dispatch_groups, WrittenGroup};
use co3_derive::tokens::{Delimiter, Tok};

fn id(s: &str) -> Tok {
    Tok::Ident(s.to_string())
}

fn p(c: char) -> Tok {
    Tok::Punct(c, false)
}

fn angle(name: &str) -> Vec<Tok> {
    vec![p('<'), id(name), p('>')]
}

fn capture(name: &str) -> Vec<Tok> {
    let mut v = vec![id("use")];
    v.extend(angle(name));
    v
}

fn paren(parts: Vec<Vec<Tok>>) -> Tok {
    let mut inner = Vec::new();
    for (k, part) in parts.into_iter().enumerate() {
        if k > 0 {
            inner.push(p('|'));
        }
        inner.extend(part);
    }
    Tok::Group(Delimiter::Parenthesis, inner)
}

#[test]
fn reads_two_groups() {
    // use<T> @ (<u8> | <u16>), use<U> @ (<i8>)
    let mut toks = capture("T");
    toks.push(p('@'));
    toks.push(paren(vec![angle("u8"), angle("u16")]));
    toks.push(p(','));
    toks.extend(capture("U"));
    toks.push(p('@'));
    toks.push(paren(vec![angle("i8")]));
    let (groups, stop) = read_dispatch_groups(&toks);
    assert_eq!(stop, None);
    assert_eq!(
        groups,
        vec![
            WrittenGroup { capture: (0, 4), group: 5, targets: vec![(0, 3), (4, 7)] },
            WrittenGroup { capture: (7, 11), group: 12, targets: vec![(0, 3)] },
        ]
    );
}

#[test]
fn a_trailing_comma_and_bar_are_accepted() {
    // use<T> @ (<u8> |),
    let mut toks = capture("T");
    toks.push(p('@'));
    let mut inner = angle("u8");
    inner.push(p('|'));
    toks.push(Tok::Group(Delimiter::Parenthesis, inner));
    toks.push(p(','));
    let (groups, stop) = read_dispatch_groups(&toks);
    assert_eq!(stop, None);
    assert_eq!(groups, vec![WrittenGroup { capture: (0, 4), group: 5, targets: vec![(0, 3)] }]);
}

#[test]
fn a_missing_comma_stops_after_the_group() {
    // use<T> @ (<u8>) use<U> @ (<i8>)
    let mut toks = capture("T");
    toks.push(p('@'));
    toks.push(paren(vec![angle("u8")]));
    toks.extend(capture("U"));
    toks.push(p('@'));
    toks.push(paren(vec![angle("i8")]));
    let (groups, stop) = read_dispatch_groups(&toks);
    assert_eq!(groups.len(), 1);
    assert_eq!(stop, Some(6));
}

#[test]
fn targets_without_parentheses_are_refused() {
    // use<T> @ <u8>
    let mut toks = capture("T");
    toks.push(p('@'));
    toks.extend(angle("u8"));
    let (groups, stop) = read_dispatch_groups(&toks);
    assert!(groups.is_empty());
    assert_eq!(stop, Some(5));
}

#[test]
fn parameters_that_are_not_use_are_refused() {
    // T @ (<u8>)
    let toks = vec![id("T"), p('@'), paren(vec![angle("u8")])];
    let (groups, stop) = read_dispatch_groups(&toks);
    assert!(groups.is_empty());
    assert_eq!(stop, Some(0));
}

#[test]
fn a_malformed_target_is_refused() {
    // use<T> @ (u8)
    let mut toks = capture("T");
    toks.push(p('@'));
    toks.push(Tok::Group(Delimiter::Parenthesis, vec![id("u8")]));
    let (groups, stop) = read_dispatch_groups(&toks);
    assert!(groups.is_empty());
    assert_eq!(stop, Some(5));
}
