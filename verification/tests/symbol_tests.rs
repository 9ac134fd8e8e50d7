use co3_derive::symbol::{
    fn_symbol_name, generic_arg_symbol_name, impl_fn_symbol_name, path_symbol_name,
    sanitize_symbol_component, type_symbol_name, validate_symbol_text, SymbolTextError,
};
use co3_derive::types::{GenericArg, PathArgs, PathSegment, Ty, TyPath};

fn seg(name: &str) -> PathSegment {
    PathSegment { ident: name.to_string(), args: PathArgs::Bare }
}

fn path(names: &[&str]) -> TyPath {
    TyPath { qself: None, leading_colon: false, segments: names.iter().map(|n| seg(n)).collect() }
}

fn named(name: &str) -> Ty {
    Ty::Path(path(&[name]))
}

fn generic(name: &str, args: Vec<GenericArg>) -> Ty {
    Ty::Path(TyPath {
        qself: None,
        leading_colon: false,
        segments: vec![PathSegment { ident: name.to_string(), args: PathArgs::Angle(args) }],
    })
}

fn reference(mutable: bool, elem: Ty) -> Ty {
    Ty::Reference { lifetime: None, mutable, elem: Box::new(elem) }
}

#[test]
fn validates_symbol_name_interpolation_without_escape_syntax() {
    assert!(validate_symbol_text("", true).is_err());
    assert!(validate_symbol_text("SQLPrepare{C}", true).is_ok());
    assert!(validate_symbol_text("SQLPrepare{C}", false).is_err());
    assert!(validate_symbol_text("SQLPrepare\\{C}", true).is_err());
    assert!(validate_symbol_text("SQL Prepare", true).is_err());
    assert!(validate_symbol_text("SQL{C}Prepare{D", true).is_err());
}

#[test]
fn symbol_text_errors_say_what_is_wrong() {
    assert_eq!(validate_symbol_text("", false), Err(SymbolTextError::Empty));
    assert_eq!(validate_symbol_text("a{1x}", true), Err(SymbolTextError::BadInterpolation));
    assert_eq!(validate_symbol_text("a{}", true), Err(SymbolTextError::BadInterpolation));
    assert_eq!(validate_symbol_text("a}", true), Err(SymbolTextError::ReservedBrace));
    assert_eq!(validate_symbol_text("a{b}", false), Err(SymbolTextError::ReservedBrace));
    assert_eq!(validate_symbol_text("a-b", true), Err(SymbolTextError::InvalidCharacter));
    assert_eq!(validate_symbol_text("é", false), Err(SymbolTextError::InvalidCharacter));
    assert_eq!(validate_symbol_text("_x9{_T}{U2}z", true), Ok(()));
    assert_eq!(SymbolTextError::Empty.message(), "symbol names cannot be empty");
    assert_eq!(
        SymbolTextError::BadInterpolation.message(),
        "symbol interpolation must use `{Ident}`"
    );
    assert_eq!(
        SymbolTextError::ReservedBrace.message(),
        "`{` and `}` are reserved for symbol interpolation"
    );
    assert_eq!(
        SymbolTextError::InvalidCharacter.message(),
        "symbol names may contain only ASCII letters, digits, and `_`"
    );
}

#[test]
fn sanitizes_symbol_components() {
    assert_eq!(sanitize_symbol_component("Foo < u8 >"), "Foo_u8");
    assert_eq!(sanitize_symbol_component("__a__b__"), "a__b");
    assert_eq!(sanitize_symbol_component("a::b"), "a_b");
    assert_eq!(sanitize_symbol_component("dyn Fn (& u8)"), "dyn_Fn_u8");
    assert_eq!(sanitize_symbol_component("* - ! "), "ty");
    assert_eq!(sanitize_symbol_component(""), "ty");
    assert_eq!(sanitize_symbol_component("ü1"), "1");
}

#[test]
fn sanitizing_twice_changes_nothing() {
    for text in ["Foo < u8 >", "__a__b__", "", "x", "&'a mut [T; N]"] {
        let once = sanitize_symbol_component(text);
        assert_eq!(sanitize_symbol_component(&once), once);
    }
}

#[test]
fn default_symbol_names() {
    assert_eq!(fn_symbol_name("mylib", "open", &vec![]), "mylib__open");
    assert_eq!(
        fn_symbol_name("mylib", "read", &vec!["T".to_string(), "N".to_string()]),
        "mylib__read__{T}__{N}"
    );
    assert_eq!(
        impl_fn_symbol_name("mylib", Some("Reader"), "File", "read", &vec![]),
        "mylib__Reader__File__read"
    );
    assert_eq!(
        impl_fn_symbol_name("mylib", None, "File", "close", &vec!["T".to_string()]),
        "mylib__File__close__{T}"
    );
    assert!(validate_symbol_text(&fn_symbol_name("p", "f", &vec!["T".to_string()]), true).is_ok());
}

#[test]
fn type_symbol_names() {
    assert_eq!(type_symbol_name(&named("u8")), "u8");
    assert_eq!(type_symbol_name(&reference(false, named("u8"))), "ref_u8");
    assert_eq!(type_symbol_name(&reference(true, named("str"))), "mut_ref_str");
    assert_eq!(
        type_symbol_name(&Ty::Ptr { mutable: false, elem: Box::new(named("c_char")) }),
        "const_ptr_c_char"
    );
    assert_eq!(type_symbol_name(&Ty::Slice(Box::new(named("u16")))), "slice_u16");
    assert_eq!(
        type_symbol_name(&Ty::Array { elem: Box::new(named("u8")), len: "N + 1".to_string() }),
        "array_u8_N_1"
    );
    assert_eq!(type_symbol_name(&Ty::Tuple(vec![])), "unit");
    assert_eq!(type_symbol_name(&Ty::Tuple(vec![named("u8"), named("bool")])), "tuple_u8_bool");
    assert_eq!(type_symbol_name(&Ty::Infer), "ty");
    assert_eq!(
        type_symbol_name(&Ty::Other("dyn Fn(u8)".to_string())),
        "dyn_Fn_u8"
    );
}

#[test]
fn path_symbol_names_use_the_last_segment_and_its_arguments() {
    assert_eq!(path_symbol_name(&path(&["std", "string", "String"])), "String");
    assert_eq!(path_symbol_name(&path(&[])), "Self");
    let ty = generic(
        "HashMap",
        vec![
            GenericArg::Lifetime("a".to_string()),
            GenericArg::Type(named("u8")),
            GenericArg::Type(reference(false, named("str"))),
        ],
    );
    assert_eq!(type_symbol_name(&ty), "HashMap_u8_ref_str");
    assert_eq!(
        type_symbol_name(&generic("Iter", vec![GenericArg::AssocType("Item".to_string(), named("u8"))])),
        "Iter_Item_u8"
    );
    assert_eq!(
        type_symbol_name(&generic("Buf", vec![GenericArg::Const("{ N * 2 }".to_string())])),
        "Buf_N_2"
    );
    assert_eq!(generic_arg_symbol_name(&GenericArg::Lifetime("a".to_string())), None);
    assert_eq!(
        generic_arg_symbol_name(&GenericArg::AssocConst("SIZE".to_string(), "4".to_string())),
        Some("SIZE_4".to_string())
    );
    assert_eq!(
        generic_arg_symbol_name(&GenericArg::Constraint("Item".to_string(), vec![])),
        Some("Item".to_string())
    );
}

#[test]
fn sanitizing_keeps_letters_and_digits_and_clean_components() {
    for input in ["Foo < u8 >", "a::b", "x_1 + y2", "dyn Fn (& u8)"] {
        let out = sanitize_symbol_component(input);
        let keep = |s: &str| s.chars().filter(|c| c.is_ascii_alphanumeric()).collect::<String>();
        assert_eq!(keep(&out), keep(input));
    }
    for clean in ["Foo_u8", "a__b", "x1"] {
        assert_eq!(sanitize_symbol_component(clean), clean);
    }
}

#[test]
fn plain_symbol_text_is_accepted_iff_it_has_only_symbol_chars() {
    assert!(validate_symbol_text("abc_12", false).is_ok());
    assert!(validate_symbol_text("", false).is_err());
    assert!(validate_symbol_text("a-b", false).is_err());
    assert!(validate_symbol_text("a{b}", false).is_err());
    assert!(validate_symbol_text("a__{T}", true).is_ok());
}
