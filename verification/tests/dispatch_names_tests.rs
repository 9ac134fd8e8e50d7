use co3_derive::dispatch::dispatch_module_name;
use co3_derive::generics::dispatch_trait_args;
use co3_derive::signature::GenericParam;
use co3_derive::types::{GenericArg, PathArgs, PathSegment, Ty, TyPath};

fn named(name: &str) -> Ty {
    Ty::Path(TyPath {
        qself: None,
        leading_colon: false,
        segments: vec![PathSegment { ident: name.to_string(), args: PathArgs::Bare }],
    })
}

#[test]
fn trait_args_name_each_parameter_in_order() {
    let params = vec![
        GenericParam::Lifetime { name: "a".to_string(), outlives: vec![] },
        GenericParam::Type { name: "T".to_string(), bounds: vec![] },
        GenericParam::Const { name: "N".to_string(), ty: named("usize") },
    ];
    assert_eq!(
        dispatch_trait_args(&params),
        vec![GenericArg::Lifetime("a".to_string()), GenericArg::Type(named("T")), GenericArg::Const("N".to_string())]
    );
}

#[test]
fn module_names_come_from_the_self_type_and_method() {
    assert_eq!(dispatch_module_name(&named("Engine"), "run"), "engine_run");
    assert_eq!(dispatch_module_name(&Ty::Infer, "run"), "dispatch_run");
}
