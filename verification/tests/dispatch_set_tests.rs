use co3_derive::dispatch_set::{gen_dispatch_set, prune_dispatch_impl_predicates, DispatchSetImpl};
use co3_derive::signature::WherePredicate;
use co3_derive::tokens::{Delimiter, Tok};
use co3_derive::types::{Bound, PathArgs, PathSegment, Ty, TyPath};

fn text(toks: &[Tok]) -> String {
    let mut out = String::new();
    for t in toks {
        match t {
            Tok::Ident(s) | Tok::Literal(s) => {
                out.push_str(s);
                out.push(' ');
            }
            Tok::Punct(c, joint) => {
                out.push(*c);
                if !*joint {
                    out.push(' ');
                }
            }
            Tok::Group(d, inner) => {
                let (open, close) = match d {
                    Delimiter::Parenthesis => ("( ", ") "),
                    Delimiter::Brace => ("{ ", "} "),
                    Delimiter::Bracket => ("[ ", "] "),
                    Delimiter::Invisible => ("", ""),
                };
                out.push_str(open);
                out.push_str(&text(inner));
                out.push_str(close);
            }
        }
    }
    out
}

fn path(name: &str) -> TyPath {
    TyPath { qself: None, leading_colon: false, segments: vec![PathSegment { ident: name.to_string(), args: PathArgs::Bare }] }
}

fn tr(name: &str, maybe: bool) -> Bound {
    Bound::Trait { maybe, binder: vec![], path: path(name) }
}

fn pred(param: &str, bounds: Vec<Bound>) -> WherePredicate {
    WherePredicate::Type { ty: Ty::Path(path(param)), bounds }
}

fn id(s: &str) -> Vec<Tok> {
    vec![Tok::Ident(s.to_string())]
}

#[test]
fn maybe_sized_is_dropped_where_no_declared_parameter_is_bounded() {
    let preds = vec![
        pred("T", vec![tr("Sized", true)]),
        pred("U", vec![tr("Sized", true), tr("Clone", false)]),
        pred("A", vec![tr("Sized", true)]),
        WherePredicate::Lifetime { lifetime: "a".to_string(), outlives: vec!["b".to_string()] },
        pred("V", vec![tr("Sized", false)]),
    ];
    let pruned = prune_dispatch_impl_predicates(preds, &vec![false, false, true, false, false]);
    assert_eq!(
        pruned,
        vec![
            pred("U", vec![tr("Clone", false)]),
            pred("A", vec![tr("Sized", true)]),
            WherePredicate::Lifetime { lifetime: "a".to_string(), outlives: vec!["b".to_string()] },
            pred("V", vec![tr("Sized", false)]),
        ]
    );
}

#[test]
fn a_dispatch_set_is_a_sealed_trait_implemented_for_each_selection() {
    let impls = vec![
        DispatchSetImpl { lifetimes: vec![], aux_params: vec![], selection_args: id("u8"), where_clause: vec![], items: vec![] },
        DispatchSetImpl {
            lifetimes: vec![vec![Tok::Punct('\'', true), Tok::Ident("a".to_string())]],
            aux_params: vec![id("A"), id("B")],
            selection_args: id("u16"),
            where_clause: vec![],
            items: id("x"),
        },
    ];
    let t = text(&gen_dispatch_set("Set", "sealed", &id("T"), &vec![], &id("T"), &vec![], &impls));
    assert_eq!(
        t,
        "mod sealed { use super :: * ; pub trait Sealed < T > { } } pub ( super ) trait Set < T > : sealed :: Sealed < T > { } \
         impl sealed :: Sealed < u8 > for ( ) { } impl Set < u8 > for ( ) { } \
         impl < 'a , A , B > sealed :: Sealed < u16 > for ( ) { } impl < 'a , A , B > Set < u16 > for ( ) { x } "
    );
}

#[test]
fn a_dispatch_set_without_parameters_has_no_generics() {
    let t = text(&gen_dispatch_set("Set", "sealed", &vec![], &vec![], &vec![], &vec![], &vec![]));
    assert_eq!(t, "mod sealed { use super :: * ; pub trait Sealed { } } pub ( super ) trait Set : sealed :: Sealed < > { } ");
}
