use co3_derive::tokens::{Delimiter, Tok};
use co3_derive::layout::{build_nested_tuple, infer_repr, is_exhaustive_enum, NestedTuple};
use co3_derive::repr::ReprPrimitive;

fn flat(from: usize, to: usize) -> NestedTuple {
    NestedTuple::Tuple((from..to).map(NestedTuple::Element).collect())
}

fn tuple(parts: Vec<NestedTuple>) -> NestedTuple {
    NestedTuple::Tuple(parts)
}

fn flats(bounds: &[usize]) -> Vec<NestedTuple> {
    bounds.windows(2).map(|w| flat(w[0], w[1])).collect()
}

#[test]
fn test_base_case_1_element() {
    let (result, accessors) = build_nested_tuple(1);
    assert_eq!(accessors, vec![vec![0]]);
    assert_eq!(result, flat(0, 1));
}

#[test]
fn test_base_case_12_elements() {
    let (result, _) = build_nested_tuple(12);
    assert_eq!(result, flat(0, 12));
}

#[test]
fn test_13_elements() {
    let (result, accessors) = build_nested_tuple(13);
    assert_eq!(result, tuple(vec![flat(0, 7), flat(7, 13)]));
    assert_eq!(13, accessors.len());
    assert_eq!(accessors[0], vec![0, 0]);
    assert_eq!(accessors[6], vec![0, 6]);
    assert_eq!(accessors[7], vec![1, 0]);
    assert_eq!(accessors[12], vec![1, 5]);
}

#[test]
fn test_24_elements() {
    let (result, _) = build_nested_tuple(24);
    assert_eq!(result, tuple(vec![flat(0, 12), flat(12, 24)]));
}

#[test]
fn test_25_elements() {
    let (result, _) = build_nested_tuple(25);
    assert_eq!(result, tuple(flats(&[0, 9, 17, 25])));
}

#[test]
fn test_36_elements() {
    let (result, _) = build_nested_tuple(36);
    assert_eq!(result, tuple(flats(&[0, 12, 24, 36])));
}

#[test]
fn test_37_elements() {
    let (result, _) = build_nested_tuple(37);
    assert_eq!(result, tuple(flats(&[0, 10, 19, 28, 37])));
}

#[test]
fn test_144_elements() {
    let (result, _) = build_nested_tuple(144);
    let bounds: Vec<usize> = (0..=12).map(|i| i * 12).collect();
    assert_eq!(result, tuple(flats(&bounds)));
}

#[test]
fn test_145_elements() {
    let (result, _) = build_nested_tuple(145);
    let mut parts = vec![tuple(vec![flat(0, 7), flat(7, 13)])];
    let bounds: Vec<usize> = (0..12).map(|i| 13 + i * 12).collect();
    parts.extend(flats(&bounds));
    assert_eq!(result, tuple(parts));
}

#[test]
fn test_156_elements() {
    let (result, _) = build_nested_tuple(156);
    let parts: Vec<NestedTuple> = (0..12)
        .map(|i| tuple(vec![flat(i * 13, i * 13 + 7), flat(i * 13 + 7, i * 13 + 13)]))
        .collect();
    assert_eq!(result, tuple(parts));
}

fn element_at(t: &NestedTuple, path: &[usize]) -> Option<usize> {
    match (t, path.split_first()) {
        (NestedTuple::Element(i), None) => Some(*i),
        (NestedTuple::Tuple(parts), Some((first, rest))) => {
            parts.get(*first).and_then(|p| element_at(p, rest))
        }
        _ => None,
    }
}

#[test]
fn every_accessor_reaches_its_element() {
    for n in [1usize, 2, 11, 12, 13, 100, 144, 145, 200, 1000, 1729, 1730] {
        let (result, accessors) = build_nested_tuple(n);
        assert_eq!(accessors.len(), n);
        for (k, path) in accessors.iter().enumerate() {
            assert_eq!(element_at(&result, path), Some(k), "n = {}, element {}", n, k);
        }
    }
}

fn max_arity(t: &NestedTuple) -> usize {
    match t {
        NestedTuple::Element(_) => 0,
        NestedTuple::Tuple(parts) => parts.iter().map(max_arity).fold(parts.len(), usize::max),
    }
}

#[test]
fn no_tuple_holds_more_than_twelve_parts() {
    for n in [1usize, 12, 13, 145, 1729, 5000] {
        let (result, _) = build_nested_tuple(n);
        assert!(max_arity(&result) <= 12);
    }
}

#[test]
fn zero_elements_is_the_unit_tuple() {
    let (result, accessors) = build_nested_tuple(0);
    assert_eq!(result, tuple(vec![]));
    assert!(accessors.is_empty());
}

#[test]
fn infers_the_smallest_repr_with_a_spare_value() {
    assert_eq!(infer_repr(0), ReprPrimitive::U8);
    assert_eq!(infer_repr(255), ReprPrimitive::U8);
    assert_eq!(infer_repr(256), ReprPrimitive::U16);
    assert_eq!(infer_repr(65535), ReprPrimitive::U16);
    assert_eq!(infer_repr(65536), ReprPrimitive::U32);
}

#[test]
fn exhaustive_enums_fill_their_repr() {
    assert!(is_exhaustive_enum(256, ReprPrimitive::U8));
    assert!(is_exhaustive_enum(256, ReprPrimitive::I8));
    assert!(!is_exhaustive_enum(255, ReprPrimitive::U8));
    assert!(!is_exhaustive_enum(256, ReprPrimitive::U16));
    assert!(is_exhaustive_enum(65536, ReprPrimitive::I16));
    assert!(!is_exhaustive_enum(usize::MAX, ReprPrimitive::U64));
}

fn flatten(t: &NestedTuple, out: &mut Vec<usize>) -> bool {
    match t {
        NestedTuple::Element(i) => {
            out.push(*i);
            true
        }
        NestedTuple::Tuple(parts) => {
            let mut ok = !parts.is_empty() && parts.len() <= 12;
            for p in parts {
                ok &= flatten(p, out);
            }
            ok
        }
    }
}

#[test]
fn nesting_keeps_elements_in_order_with_one_to_twelve_parts() {
    for n in [1usize, 5, 12, 13, 40, 145, 300] {
        let (result, _) = build_nested_tuple(n);
        let mut flat = Vec::new();
        assert!(flatten(&result, &mut flat));
        assert_eq!(flat, (0..n).collect::<Vec<_>>());
    }
}

fn c_type_of(name: &str) -> Vec<co3_derive::tokens::Tok> {
    vec![
        Tok::Punct('<', false),
        Tok::Ident(name.to_string()),
        Tok::Ident("as".to_string()),
        Tok::Ident("co3".to_string()),
        Tok::Punct(':', true),
        Tok::Punct(':', false),
        Tok::Ident("ExternC".to_string()),
        Tok::Punct('>', false),
        Tok::Punct(':', true),
        Tok::Punct(':', false),
        Tok::Ident("CType".to_string()),
    ]
}

#[test]
fn nested_tuples_are_written_with_their_c_counterpart() {
    let (nested, _) = co3_derive::layout::build_nested_tuple(2);
    let types = vec![vec![Tok::Ident("u8".to_string())], vec![Tok::Ident("i8".to_string())]];
    let (tuple, c_tuple) = co3_derive::layout::write_nested_tuples(&nested, &types);
    let comma = || Tok::Punct(',', false);
    assert_eq!(
        tuple,
        vec![Tok::Group(
            Delimiter::Parenthesis,
            vec![Tok::Ident("u8".to_string()), comma(), Tok::Ident("i8".to_string()), comma()]
        )]
    );
    let mut inner = c_type_of("u8");
    inner.push(comma());
    inner.extend(c_type_of("i8"));
    inner.push(comma());
    assert_eq!(c_tuple, vec![Tok::Group(Delimiter::Parenthesis, inner)]);
}

#[test]
fn thirteen_types_nest_in_both_tuples_alike() {
    let (nested, _) = co3_derive::layout::build_nested_tuple(13);
    let types: Vec<Vec<Tok>> = (0..13).map(|i| vec![Tok::Ident(format!("T{i}"))]).collect();
    let (tuple, c_tuple) = co3_derive::layout::write_nested_tuples(&nested, &types);
    assert_eq!(tuple.len(), 1);
    assert_eq!(c_tuple.len(), 1);
    let (Tok::Group(_, a), Tok::Group(_, b)) = (&tuple[0], &c_tuple[0]) else {
        panic!("expected groups");
    };
    let commas = |v: &Vec<Tok>| v.iter().filter(|t| **t == Tok::Punct(',', false)).count();
    assert_eq!(commas(a), commas(b));
}
