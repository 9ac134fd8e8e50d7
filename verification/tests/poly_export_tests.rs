use co3_derive::poly_export::{gen_poly_export_name, PolyExportName};
use co3_derive::types::{PathArgs, PathSegment, QSelf, Ty, TyPath};

fn path(names: &[&str]) -> TyPath {
    TyPath {
        qself: None,
        leading_colon: false,
        segments: names.iter().map(|n| PathSegment { ident: n.to_string(), args: PathArgs::Bare }).collect(),
    }
}

fn scoped(owner: &str, method: &str) -> PolyExportName {
    PolyExportName::CrateScoped { owner: owner.to_string(), method: method.to_string() }
}

#[test]
fn a_given_name_is_kept() {
    let t = path(&["Tr"]);
    assert_eq!(gen_poly_export_name(Some("exact"), true, "m", Some(&t), None), PolyExportName::Given("exact".to_string()));
}

#[test]
fn no_mangle_uses_the_method_name() {
    assert_eq!(gen_poly_export_name(None, true, "m", None, None), PolyExportName::Given("m".to_string()));
}

#[test]
fn a_trait_method_is_scoped_by_the_trait() {
    let t = path(&["a", "Tr"]);
    let s = Ty::Path(path(&["S"]));
    assert_eq!(gen_poly_export_name(None, false, "m", Some(&t), Some(&s)), scoped("Tr", "m"));
}

#[test]
fn an_inherent_method_is_scoped_by_its_self_type() {
    let s = Ty::Path(path(&["m", "S"]));
    assert_eq!(gen_poly_export_name(None, false, "go", None, Some(&s)), scoped("S", "go"));
    assert_eq!(gen_poly_export_name(None, false, "go", None, None), scoped("Self", "go"));
    let q = Ty::Path(TyPath {
        qself: Some(QSelf { ty: Box::new(Ty::Path(path(&["S"]))), position: 1, has_as: true }),
        leading_colon: false,
        segments: path(&["Tr", "Out"]).segments,
    });
    assert_eq!(gen_poly_export_name(None, false, "go", None, Some(&q)), scoped("Self", "go"));
    assert_eq!(gen_poly_export_name(None, false, "go", None, Some(&Ty::Infer)), scoped("Self", "go"));
}
