use co3_derive::ffi_attrs::{
    is_builtin_symbol_fragment_type, read_attrs, normalize_extern_attr_tokens, parse_failure_attr, parse_feature_attrs,
    parse_symbol_prefix_attr, symbol_fragment_pairs, take_decl_attr, DeclKind, FailureMode, FfiAttrError,
    FragmentEntry, FragmentError, MacroFeatures, symbol_prefix_or_default,
};
use co3_derive::symbol::SymbolTextError;
use co3_derive::tokens::{Attr, AttrMeta, Delimiter, Tok};

fn convert(stream: proc_macro2::TokenStream) -> Vec<Tok> {
    stream
        .into_iter()
        .map(|tt| match tt {
            proc_macro2::TokenTree::Ident(i) => Tok::Ident(i.to_string()),
            proc_macro2::TokenTree::Punct(p) => Tok::Punct(p.as_char(), p.spacing() == proc_macro2::Spacing::Joint),
            proc_macro2::TokenTree::Literal(l) => Tok::Literal(l.to_string()),
            proc_macro2::TokenTree::Group(g) => {
                let d = match g.delimiter() {
                    proc_macro2::Delimiter::Parenthesis => Delimiter::Parenthesis,
                    proc_macro2::Delimiter::Brace => Delimiter::Brace,
                    proc_macro2::Delimiter::Bracket => Delimiter::Bracket,
                    proc_macro2::Delimiter::None => Delimiter::Invisible,
                };
                Tok::Group(d, convert(g.stream()))
            }
        })
        .collect()
}

fn toks(src: &str) -> Vec<Tok> {
    convert(src.parse::<proc_macro2::TokenStream>().unwrap())
}

fn list(name: &str, inner: &str) -> Attr {
    Attr { path: vec![name.to_string()], meta: AttrMeta::List(toks(inner)) }
}

fn name_value(name: &str, value: &str) -> Attr {
    Attr { path: vec![name.to_string()], meta: AttrMeta::NameValue(toks(value)) }
}

fn bare(name: &str) -> Attr {
    Attr { path: vec![name.to_string()], meta: AttrMeta::Path }
}

#[test]
fn extern_becomes_raw_identifier_at_any_depth() {
    let out = normalize_extern_attr_tokens(&toks("unsafe(extern(\"C\")) extern_types externs"));
    assert_eq!(
        out,
        vec![
            Tok::Ident("unsafe".to_string()),
            Tok::Group(
                Delimiter::Parenthesis,
                vec![
                    Tok::Ident("r#extern".to_string()),
                    Tok::Group(Delimiter::Parenthesis, vec![Tok::Literal("\"C\"".to_string())]),
                ],
            ),
            Tok::Ident("extern_types".to_string()),
            Tok::Ident("externs".to_string()),
        ]
    );
}

#[test]
fn export_declaration_is_read_and_removed() {
    let mut attrs = vec![bare("doc"), list("unsafe", "export(\"C\")"), bare("other")];
    let r = { let rd = read_attrs(&attrs); take_decl_attr(&mut attrs, &rd) }.unwrap();
    assert_eq!(r, (DeclKind::Export, "C".to_string()));
    assert_eq!(attrs, vec![bare("doc"), bare("other")]);
}

#[test]
fn extern_declaration_takes_raw_identifier() {
    let mut attrs = vec![list("unsafe", "r#extern(\"C-unwind\")")];
    let r = { let rd = read_attrs(&attrs); take_decl_attr(&mut attrs, &rd) }.unwrap();
    assert_eq!(r, (DeclKind::Extern, "C-unwind".to_string()));
    assert!(attrs.is_empty());
}

#[test]
fn declaration_errors() {
    let mut none = vec![bare("doc")];
    let e = { let rd = read_attrs(&none); take_decl_attr(&mut none, &rd) }.unwrap_err();
    assert_eq!(e, FfiAttrError::MissingDecl);
    assert_eq!(e.message(), "missing `#![unsafe(export(\"...\"))]` or `#![unsafe(extern(\"...\"))]`");
    assert_eq!(none, vec![bare("doc")]);

    let mut two = vec![list("unsafe", "export(\"C\")"), bare("doc"), list("unsafe", "export(\"C\")")];
    let e = { let rd = read_attrs(&two); take_decl_attr(&mut two, &rd) }.unwrap_err();
    assert_eq!(e, FfiAttrError::DuplicateDecl { attr: 2 });
    assert_eq!(e.message(), "duplicate declaration kind attribute");
    assert_eq!(two, vec![bare("doc")]);

    for bad in ["export", "export(C)", "import(\"C\")", "export(\"C\", \"D\")", "::export(\"C\")"] {
        let mut attrs = vec![list("unsafe", bad)];
        let e = { let rd = read_attrs(&attrs); take_decl_attr(&mut attrs, &rd) }.unwrap_err();
        assert_eq!(e, FfiAttrError::Decl { attr: 0 }, "{bad}");
        assert_eq!(e.message(), "expected `#![unsafe(export(\"...\"))]` or `#![unsafe(extern(\"...\"))]`");
    }
    let mut not_list = vec![bare("unsafe")];
    assert_eq!({ let rd = read_attrs(&not_list); take_decl_attr(&mut not_list, &rd) }.unwrap_err(), FfiAttrError::Decl { attr: 0 });
}

#[test]
fn symbol_prefix_is_read_and_removed() {
    let mut attrs = vec![bare("doc"), name_value("symbol_prefix", "\"provider\"")];
    assert_eq!({ let rd = read_attrs(&attrs); parse_symbol_prefix_attr(&mut attrs, &rd) }.unwrap(), Some("provider".to_string()));
    assert_eq!(attrs, vec![bare("doc")]);

    let mut none = vec![bare("doc")];
    assert_eq!({ let rd = read_attrs(&none); parse_symbol_prefix_attr(&mut none, &rd) }.unwrap(), None);
    assert_eq!(none, vec![bare("doc")]);
}

#[test]
fn symbol_prefix_errors_leave_no_attributes() {
    let mut two = vec![name_value("symbol_prefix", "\"a\""), name_value("symbol_prefix", "\"b\"")];
    let e = { let rd = read_attrs(&two); parse_symbol_prefix_attr(&mut two, &rd) }.unwrap_err();
    assert_eq!(e, FfiAttrError::DuplicatePrefix { attr: 1 });
    assert_eq!(e.message(), "Duplicate `#![symbol_prefix = \"...\"]`");
    assert!(two.is_empty());

    let mut number = vec![bare("doc"), name_value("symbol_prefix", "5")];
    let e = { let rd = read_attrs(&number); parse_symbol_prefix_attr(&mut number, &rd) }.unwrap_err();
    assert_eq!(e, FfiAttrError::Prefix { attr: 1 });
    assert_eq!(e.message(), "Expected `#![symbol_prefix = \"...\"]`");
    assert!(number.is_empty());

    let mut listed = vec![list("symbol_prefix", "\"a\"")];
    assert_eq!({ let rd = read_attrs(&listed); parse_symbol_prefix_attr(&mut listed, &rd) }.unwrap_err(), FfiAttrError::Prefix { attr: 0 });
}

#[test]
fn failure_mode_defaults_to_panic() {
    let mut none = vec![bare("doc")];
    assert_eq!({ let rd = read_attrs(&none); parse_failure_attr(&mut none, &rd) }.unwrap(), FailureMode::Panic);
    let mut error = vec![name_value("failure", "\"error\""), bare("doc")];
    assert_eq!({ let rd = read_attrs(&error); parse_failure_attr(&mut error, &rd) }.unwrap(), FailureMode::Error);
    assert_eq!(error, vec![bare("doc")]);
    let mut panic = vec![name_value("failure", "\"panic\"")];
    assert_eq!({ let rd = read_attrs(&panic); parse_failure_attr(&mut panic, &rd) }.unwrap(), FailureMode::Panic);
}

#[test]
fn failure_mode_errors() {
    let mut bad = vec![name_value("failure", "\"abort\"")];
    let e = { let rd = read_attrs(&bad); parse_failure_attr(&mut bad, &rd) }.unwrap_err();
    assert_eq!(e, FfiAttrError::Failure { attr: 0 });
    assert_eq!(e.message(), "Expected `#![failure = \"panic\"]` or `#![failure = \"error\"]`");
    let mut two = vec![name_value("failure", "\"panic\""), name_value("failure", "\"error\"")];
    let e = { let rd = read_attrs(&two); parse_failure_attr(&mut two, &rd) }.unwrap_err();
    assert_eq!(e, FfiAttrError::DuplicateFailure { attr: 1 });
    assert_eq!(e.message(), "Duplicate `#![failure = \"...\"]`");
    assert!(two.is_empty());
}

#[test]
fn extern_types_feature_is_enabled() {
    let mut attrs = vec![list("feature", "extern_types"), bare("doc")];
    assert_eq!({ let rd = read_attrs(&attrs); parse_feature_attrs(&mut attrs, &rd) }.unwrap(), MacroFeatures { extern_types: true });
    assert_eq!(attrs, vec![bare("doc")]);
    let mut none = vec![bare("doc")];
    assert_eq!({ let rd = read_attrs(&none); parse_feature_attrs(&mut none, &rd) }.unwrap(), MacroFeatures { extern_types: false });
}

#[test]
fn feature_errors() {
    let mut dup = vec![list("feature", "extern_types"), list("feature", "extern_types")];
    let e = { let rd = read_attrs(&dup); parse_feature_attrs(&mut dup, &rd) }.unwrap_err();
    assert_eq!(e, FfiAttrError::DuplicateFeature { attr: 1, item: 0 });
    assert_eq!(e.message(), "Duplicate `extern_types` feature");
    assert!(dup.is_empty());

    let mut dup_in_list = vec![list("feature", "extern_types, extern_types")];
    assert_eq!(
        { let rd = read_attrs(&dup_in_list); parse_feature_attrs(&mut dup_in_list, &rd) }.unwrap_err(),
        FfiAttrError::DuplicateFeature { attr: 0, item: 1 }
    );

    let mut other = vec![list("feature", "extern_types, specialization")];
    let e = { let rd = read_attrs(&other); parse_feature_attrs(&mut other, &rd) }.unwrap_err();
    assert_eq!(e, FfiAttrError::UnsupportedFeature { attr: 0, item: 1 });
    assert_eq!(e.message(), "Only `extern_types` is supported");

    let mut path = vec![list("feature", "a::b")];
    let e = { let rd = read_attrs(&path); parse_feature_attrs(&mut path, &rd) }.unwrap_err();
    assert_eq!(e, FfiAttrError::FeatureName { attr: 0, item: 0 });
    assert_eq!(e.message(), "Expected feature name in `#![feature(...)]`");

    let mut nested = vec![list("feature", "extern_types(yes)")];
    assert_eq!({ let rd = read_attrs(&nested); parse_feature_attrs(&mut nested, &rd) }.unwrap_err(), FfiAttrError::FeatureName { attr: 0, item: 0 });

    let mut not_list = vec![name_value("feature", "\"extern_types\"")];
    let e = { let rd = read_attrs(&not_list); parse_feature_attrs(&mut not_list, &rd) }.unwrap_err();
    assert_eq!(e, FfiAttrError::FeatureNotList { attr: 0 });
    assert_eq!(e.message(), "Expected `#![feature(...)]`");

    let mut unparsable = vec![list("feature", "extern_types extern_types")];
    match { let rd = read_attrs(&unparsable); parse_feature_attrs(&mut unparsable, &rd) }.unwrap_err() {
        FfiAttrError::FeatureArgs { attr, message } => {
            assert_eq!(attr, 0);
            assert!(!message.is_empty());
        }
        other => panic!("unexpected {other:?}"),
    }
}

fn entry(key: &str, ident: Option<&str>, value: &str) -> FragmentEntry {
    FragmentEntry { key: key.to_string(), ident: ident.map(|s| s.to_string()), value: value.to_string() }
}

#[test]
fn symbol_fragments_are_collected_in_order() {
    let entries = vec![entry("Foo", Some("Foo"), "foo"), entry("bar :: Baz", None, "baz_1")];
    let pairs = symbol_fragment_pairs(&Vec::new(), &entries).unwrap();
    assert_eq!(pairs, vec![("Foo".to_string(), "foo".to_string()), ("bar :: Baz".to_string(), "baz_1".to_string())]);
}

#[test]
fn symbol_fragment_errors() {
    let known = vec![("Foo".to_string(), "foo".to_string())];
    let e = symbol_fragment_pairs(&known, &vec![entry("Foo", Some("Foo"), "again")]).unwrap_err();
    assert_eq!(e, FragmentError::Duplicate { entry: 0 });
    assert_eq!(e.message(&vec![entry("Foo", Some("Foo"), "again")]), "duplicate symbol fragment for `Foo`");

    let same_list = vec![entry("A", Some("A"), "a"), entry("A", Some("A"), "b")];
    assert_eq!(symbol_fragment_pairs(&Vec::new(), &same_list).unwrap_err(), FragmentError::Duplicate { entry: 1 });

    let bad_text = vec![entry("A", Some("A"), "a-b")];
    let e = symbol_fragment_pairs(&Vec::new(), &bad_text).unwrap_err();
    assert_eq!(e, FragmentError::Symbol { entry: 0, error: SymbolTextError::InvalidCharacter });
    assert_eq!(e.message(&bad_text), "symbol names may contain only ASCII letters, digits, and `_`");

    // The whole list is read before any fragment is checked.
    let primitive_later = vec![entry("A", Some("A"), ""), entry("u8", Some("u8"), "byte")];
    let e = symbol_fragment_pairs(&Vec::new(), &primitive_later).unwrap_err();
    assert_eq!(e, FragmentError::Primitive { entry: 1 });
    assert_eq!(e.message(&primitive_later), "Rust primitive types have stable, built-in symbol fragments");
}

#[test]
fn builtin_fragment_types() {
    for name in ["bool", "char", "str", "i8", "u128", "usize", "f32", "f64"] {
        assert!(is_builtin_symbol_fragment_type(name), "{name}");
    }
    for name in ["String", "Str", "u256", ""] {
        assert!(!is_builtin_symbol_fragment_type(name), "{name}");
    }
}

#[test]
fn readme_export_header_is_read() {
    let mut attrs = vec![list("unsafe", "export(\"C\")"), name_value("symbol_prefix", "\"geometry\"")];
    assert_eq!({ let rd = read_attrs(&attrs); take_decl_attr(&mut attrs, &rd) }.unwrap(), (DeclKind::Export, "C".to_string()));
    assert_eq!({ let rd = read_attrs(&attrs); parse_symbol_prefix_attr(&mut attrs, &rd) }.unwrap(), Some("geometry".to_string()));
    assert_eq!({ let rd = read_attrs(&attrs); parse_failure_attr(&mut attrs, &rd) }.unwrap(), FailureMode::Panic);
    assert_eq!({ let rd = read_attrs(&attrs); parse_feature_attrs(&mut attrs, &rd) }.unwrap(), MacroFeatures { extern_types: false });
    assert!(attrs.is_empty());
    assert_eq!(
        co3_derive::symbol::fn_symbol_name("geometry", "distance", &vec![]),
        "geometry__distance"
    );
    assert_eq!(
        co3_derive::symbol::impl_fn_symbol_name("geometry", None, "Camera", "position", &vec![]),
        "geometry__Camera__position"
    );
}

#[test]
fn readme_import_header_is_read() {
    let mut tokens = normalize_extern_attr_tokens(&toks("unsafe(extern(\"C\"))"));
    assert_eq!(tokens.len(), 2);
    let group = tokens.pop().unwrap();
    assert_eq!(tokens.pop().unwrap(), Tok::Ident("unsafe".to_string()));
    let inner = match group {
        Tok::Group(Delimiter::Parenthesis, inner) => inner,
        other => panic!("unexpected {other:?}"),
    };
    let path = "unsafe".to_string();
    let mut attrs = vec![Attr { path: vec![path], meta: AttrMeta::List(inner) }];
    assert_eq!({ let rd = read_attrs(&attrs); take_decl_attr(&mut attrs, &rd) }.unwrap(), (DeclKind::Extern, "C".to_string()));
}

#[test]
fn the_symbol_prefix_falls_back_to_the_crate_and_then_co3() {
    assert_eq!(symbol_prefix_or_default(Some("mine".to_string()), Some("krate".to_string())), "mine");
    assert_eq!(symbol_prefix_or_default(None, Some("krate".to_string())), "krate");
    assert_eq!(symbol_prefix_or_default(None, None), "co3");
}
