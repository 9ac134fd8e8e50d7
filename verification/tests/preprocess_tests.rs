use co3_derive::preprocess::{
    preprocess_dispatch_params_with, preprocess_dispatch_where_clause_with, read_group_types, read_where,
    WhereReadings,
    contains_dispatch_predicate, is_fn_head, preprocess_dispatch_params, preprocess_dispatch_where_clause,
    scan_signature_tokens, split_ranges_exec, ParamsError, WhereError,
};
use co3_derive::tokens::{Delimiter, Tok};

fn convert(stream: proc_macro2::TokenStream) -> Vec<Tok> {
    stream
        .into_iter()
        .flat_map(|tt| match tt {
            proc_macro2::TokenTree::Ident(i) => vec![Tok::Ident(i.to_string())],
            proc_macro2::TokenTree::Punct(p) => {
                vec![Tok::Punct(p.as_char(), p.spacing() == proc_macro2::Spacing::Joint)]
            }
            proc_macro2::TokenTree::Literal(l) => vec![Tok::Literal(l.to_string())],
            proc_macro2::TokenTree::Group(g) => {
                let d = match g.delimiter() {
                    proc_macro2::Delimiter::Parenthesis => Delimiter::Parenthesis,
                    proc_macro2::Delimiter::Brace => Delimiter::Brace,
                    proc_macro2::Delimiter::Bracket => Delimiter::Bracket,
                    proc_macro2::Delimiter::None => Delimiter::Invisible,
                };
                vec![Tok::Group(d, convert(g.stream()))]
            }
        })
        .collect()
}

fn toks(src: &str) -> Vec<Tok> {
    convert(src.parse::<proc_macro2::TokenStream>().unwrap())
}

#[test]
fn rejects_where_predicate_after_dispatch_predicate() {
    let err = preprocess_dispatch_where_clause(&toks("fn name<T>() where use<T> @ <u32>, T: Copy")).unwrap_err();
    assert!(err.message().contains("tagged-dispatch predicates must be last in a `where` clause"));
    assert_eq!(err, WhereError::PredicateAfterDispatch { start: 16, end: 19 });
}

#[test]
fn rejects_lifetime_dispatch_parameter() {
    let err = preprocess_dispatch_where_clause(&toks("fn name<'a, T>() where use<'a, T> @ <u32>")).unwrap_err();
    assert!(err.message().contains("dispatch parameters cannot be lifetimes"));
    assert!(matches!(err, WhereError::LifetimeParam { param: 0, .. }));
}

#[test]
fn dispatch_predicates_become_the_erased_list() {
    let (rest, list) =
        preprocess_dispatch_where_clause(&toks("fn name<T, U>() where T: Copy, use<T> @ (<u8> | <u16>), use<U> @ <u32>"))
            .unwrap();
    assert_eq!(rest, toks("fn name<T, U>() where T: Copy"));
    assert_eq!(list, Some(toks("use<T> @ (<u8> | <u16>), use<U> @ (<u32>)")));
}

#[test]
fn a_where_clause_of_only_dispatch_predicates_is_dropped() {
    let (rest, list) = preprocess_dispatch_where_clause(&toks("fn name<T>() where use<T> @ <u8> ,")).unwrap();
    assert_eq!(rest, toks("fn name<T>()"));
    assert_eq!(list, Some(toks("use<T> @ (<u8>)")));
}

#[test]
fn tokens_without_where_stay_as_they_are() {
    let header = toks("fn name<T: Into<u8>>(x: T) -> u8");
    assert_eq!(preprocess_dispatch_where_clause(&header), Ok((header.clone_tokens(), None)));
    let plain = toks("fn name<T>() where T: Copy, T: Clone");
    assert_eq!(preprocess_dispatch_where_clause(&plain), Ok((plain.clone_tokens(), None)));
}

#[test]
fn dispatch_predicates_need_parameters_and_type_lists() {
    let err = preprocess_dispatch_where_clause(&toks("fn name<T>() where T @ <u8>")).unwrap_err();
    assert_eq!(err, WhereError::ExpectedUseParams { start: 7, end: 12 });
    assert_eq!(err.message(), "expected dispatch parameters such as `use<T>` before `@`");
    let err = preprocess_dispatch_where_clause(&toks("fn name<T>() where use<T> @ (<u8> | u16)")).unwrap_err();
    assert_eq!(err, WhereError::ExpectedTypeListIn { group: 12, start: 4, end: 5 });
    assert_eq!(err.message(), "expected a tagged-dispatch type list such as `<Type>`");
    let err = preprocess_dispatch_where_clause(&toks("fn name<T>() where use<T> @ u16")).unwrap_err();
    assert_eq!(err, WhereError::ExpectedTypeList { start: 12, end: 13 });
}

#[test]
fn splitting_ignores_separators_inside_angle_brackets() {
    let v = toks("A<B, C>, D");
    assert_eq!(split_ranges_exec(&v, ','), vec![(0, 6), (7, 8)]);
    assert_eq!(split_ranges_exec(&toks(""), ','), Vec::<(usize, usize)>::new());
    assert_eq!(split_ranges_exec(&toks("a,"), ','), vec![(0, 1), (2, 2)]);
}

#[test]
fn erased_type_parameters_become_attributes() {
    let out = preprocess_dispatch_params(&toks("fn name<dyn(u8) T, U>(x: dyn Trait)")).unwrap();
    assert_eq!(out, toks("fn name< #[erased(u8)] T, U>(x: dyn Trait)"));
    let out = preprocess_dispatch_params(&toks("impl<dyn(u8) T> Trait<T> for Value<T>")).unwrap();
    assert_eq!(out, toks("impl< #[erased(u8)] T> Trait<T> for Value<T>"));
    let kept = toks("fn name<T: Into<u8>>(x: T)");
    assert_eq!(preprocess_dispatch_params(&kept), Ok(kept.clone_tokens()));
}

#[test]
fn erased_type_parameters_need_a_repr() {
    let err = preprocess_dispatch_params(&toks("fn name<dyn T>()")).unwrap_err();
    assert_eq!(err, ParamsError::DynWithoutRepr { at: 3 });
    assert_eq!(err.message(), "tagged-dispatch type parameters must use `dyn(TagTy) T`");
    let err = preprocess_dispatch_params(&toks("fn name<dyn[u8] T>()")).unwrap_err();
    assert_eq!(err, ParamsError::DynWithoutRepr { at: 4 });
    let err = preprocess_dispatch_params(&toks("fn name<dyn(,) T>()")).unwrap_err();
    assert_eq!(err, ParamsError::BadRepr { at: 4 });
    assert_eq!(err.message(), "expected id repr in `dyn(TagTy) T`");
}

#[test]
fn move_before_fn_marks_by_value_return() {
    let scan = scan_signature_tokens(&toks("move fn name() -> Value")).ok().unwrap();
    assert!(scan.by_val);
    assert_eq!(scan.tokens, toks("fn name() -> Value"));
    assert_eq!(scan.inputs, Some(2));
    let scan = scan_signature_tokens(&toks("unsafe extern \"C\" move fn name()")).ok().unwrap();
    assert!(scan.by_val);
    assert_eq!(scan.tokens, toks("unsafe extern \"C\" fn name()"));
    let scan = scan_signature_tokens(&toks("move unsafe fn name()")).ok().unwrap();
    assert!(!scan.by_val);
}

#[test]
fn the_parameter_list_is_the_first_group_outside_generics() {
    let scan = scan_signature_tokens(&toks("fn name<dyn(u8) T = (u8, i8)>(value: T)")).ok().unwrap();
    assert!(!scan.by_val);
    assert_eq!(scan.inputs, Some(9));
    let scan = scan_signature_tokens(&toks("fn name<F: Fn(u8)>(f: F)")).ok().unwrap();
    assert_eq!(scan.inputs, Some(8));
}

trait CloneTokens {
    fn clone_tokens(&self) -> Vec<Tok>;
}

impl CloneTokens for Vec<Tok> {
    fn clone_tokens(&self) -> Vec<Tok> {
        co3_derive::tokens::clone_toks(self)
    }
}

#[test]
fn dispatch_predicate_is_found_after_where() {
    assert!(contains_dispatch_predicate(&toks("type Handle<T> where use<T> @ <u8>;")));
    assert!(!contains_dispatch_predicate(&toks("type Handle<T> where T: Copy;")));
    assert!(!contains_dispatch_predicate(&toks("type Handle; where use<T> @ <u8>")));
    assert!(!contains_dispatch_predicate(&toks("type Handle @ where T: Copy;")));
    assert!(!contains_dispatch_predicate(&toks("type Handle<T: Into<[u8; 2]>> where T: Tr<{ @ }>;")));
}

#[test]
fn function_heads() {
    assert!(is_fn_head(&toks("fn name();"), 0));
    assert!(is_fn_head(&toks("unsafe extern \"C\" move fn name() -> Value;"), 0));
    assert!(is_fn_head(&toks("const async unsafe extern fn name();"), 0));
    assert!(is_fn_head(&toks("extern r\"C\" fn name();"), 0));
    assert!(!is_fn_head(&toks("move unsafe fn name();"), 0));
    assert!(!is_fn_head(&toks("move async fn name();"), 0));
    assert!(!is_fn_head(&toks("static NAME: u8;"), 0));
    assert!(is_fn_head(&toks("pub fn name();"), 1));
    assert!(!is_fn_head(&toks("pub fn name();"), 0));
}

#[test]
fn the_where_clause_follows_syns_answers() {
    let header = toks("fn name<T>() where use<T> @ <u8>");
    let rd = read_where(&header);
    assert_eq!(rd, WhereReadings { capture: vec![Some(vec![false])], angles: vec![vec![true]] });
    assert_eq!(preprocess_dispatch_where_clause_with(&header, &rd), preprocess_dispatch_where_clause(&header));
    let refused = WhereReadings { capture: vec![None], angles: vec![vec![true]] };
    assert!(preprocess_dispatch_where_clause_with(&header, &refused).is_err());
}

#[test]
fn erased_parameters_follow_syns_answers() {
    let header = toks("fn name<dyn(u8) T>()");
    let types = read_group_types(&header);
    assert_eq!(preprocess_dispatch_params_with(&header, &types), preprocess_dispatch_params(&header));
    assert!(preprocess_dispatch_params_with(&header, &vec![false; header.len()]).is_err());
}

#[test]
fn a_second_move_fn_has_its_message() {
    assert_eq!(co3_derive::preprocess::duplicate_move_fn_message(), "duplicate `move fn`");
}
