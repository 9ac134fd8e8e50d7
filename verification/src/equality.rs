//! Structural equality of types and generic arguments, as their values.
use vstd::prelude::*;
use crate::text::str_eq;
use crate::types::{
    Bound, GenericArg, PathArgs, PathSegment, Ty, TyPath, bounds_view, generic_args_view,
    segments_view, strings_view, tys_view,
};
use crate::groups::keys_equal;

verus! {

fn opt_string_equal(a: &Option<String>, b: &Option<String>) -> (r: bool)
    ensures
        r == (match *a {
            Some(s) => Some(s@),
            None => None::<Seq<char>>,
        } == match *b {
            Some(s) => Some(s@),
            None => None::<Seq<char>>,
        }),
{
    match (a, b) {
        (Some(x), Some(y)) => str_eq(x.as_str(), y.as_str()),
        (None, None) => true,
        _ => false,
    }
}

/// Whether two types have the same value.
pub fn ty_equal(a: &Ty, b: &Ty) -> (r: bool)
    ensures
        r == (a@ == b@),
    decreases a, 0int,
{
    match (a, b) {
        (Ty::Path(p), Ty::Path(q)) => {
            proof {
                assert(decreases_to!(*a => (*a)->Path_0));
            }
            path_equal(p, q)
        },
        (
            Ty::Reference { lifetime: l1, mutable: m1, elem: e1 },
            Ty::Reference { lifetime: l2, mutable: m2, elem: e2 },
        ) => {
            proof {
                assert(decreases_to!(*a => (*a)->Reference_elem));
            }
            opt_string_equal(l1, l2) && *m1 == *m2 && ty_equal(e1, e2)
        },
        (Ty::Ptr { mutable: m1, elem: e1 }, Ty::Ptr { mutable: m2, elem: e2 }) => {
            proof {
                assert(decreases_to!(*a => (*a)->Ptr_elem));
            }
            *m1 == *m2 && ty_equal(e1, e2)
        },
        (Ty::Slice(e1), Ty::Slice(e2)) => {
            proof {
                assert(decreases_to!(*a => (*a)->Slice_0));
            }
            ty_equal(e1, e2)
        },
        (Ty::Array { elem: e1, len: n1 }, Ty::Array { elem: e2, len: n2 }) => {
            proof {
                assert(decreases_to!(*a => (*a)->Array_elem));
            }
            str_eq(n1.as_str(), n2.as_str()) && ty_equal(e1, e2)
        },
        (Ty::Tuple(x), Ty::Tuple(y)) => {
            proof {
                assert(decreases_to!(*a => (*a)->Tuple_0));
            }
            tys_equal(x, y)
        },
        (
            Ty::FnPtr { binder: b1, output: o1, text: t1 },
            Ty::FnPtr { binder: b2, output: o2, text: t2 },
        ) => {
            if !keys_equal(b1, b2) || !str_eq(t1.as_str(), t2.as_str()) {
                return false;
            }
            match (o1, o2) {
                (Some(x), Some(y)) => {
                    proof {
                        assert(decreases_to!(*a => (*a)->FnPtr_output));
                        assert(decreases_to!((*a)->FnPtr_output => (*a)->FnPtr_output->0));
                    }
                    ty_equal(x, y)
                },
                (None, None) => true,
                _ => false,
            }
        },
        (Ty::ImplTrait { bounds: x, text: t1 }, Ty::ImplTrait { bounds: y, text: t2 }) => {
            proof {
                assert(decreases_to!(*a => (*a)->ImplTrait_bounds));
            }
            str_eq(t1.as_str(), t2.as_str()) && bounds_equal(x, y)
        },
        (Ty::TraitObject { bounds: x, text: t1 }, Ty::TraitObject { bounds: y, text: t2 }) => {
            proof {
                assert(decreases_to!(*a => (*a)->TraitObject_bounds));
            }
            str_eq(t1.as_str(), t2.as_str()) && bounds_equal(x, y)
        },
        (Ty::Paren { elem: e1, text: t1 }, Ty::Paren { elem: e2, text: t2 }) => {
            proof {
                assert(decreases_to!(*a => (*a)->Paren_elem));
            }
            str_eq(t1.as_str(), t2.as_str()) && ty_equal(e1, e2)
        },
        (Ty::Group { elem: e1, text: t1 }, Ty::Group { elem: e2, text: t2 }) => {
            proof {
                assert(decreases_to!(*a => (*a)->Group_elem));
            }
            str_eq(t1.as_str(), t2.as_str()) && ty_equal(e1, e2)
        },
        (Ty::Infer, Ty::Infer) => true,
        (Ty::Other(t1), Ty::Other(t2)) => str_eq(t1.as_str(), t2.as_str()),
        _ => false,
    }
}

fn tys_equal(a: &Vec<Ty>, b: &Vec<Ty>) -> (r: bool)
    ensures
        r == (tys_view(a@) == tys_view(b@)),
    decreases a, 1int,
{
    if a.len() != b.len() {
        assert(tys_view(a@).len() != tys_view(b@).len());
        return false;
    }
    let mut i: usize = 0;
    while i < a.len()
        invariant
            a@.len() == b@.len(),
            i <= a@.len(),
            forall|j: int| 0 <= j < i ==> (#[trigger] a@[j])@ == b@[j]@,
        decreases a@.len() - i,
    {
        proof {
            assert(decreases_to!(*a => a@));
            assert(decreases_to!(a@ => a@[i as int]));
        }
        if !ty_equal(&a[i], &b[i]) {
            assert(tys_view(a@)[i as int] != tys_view(b@)[i as int]);
            return false;
        }
        i = i + 1;
    }
    assert(tys_view(a@) =~= tys_view(b@));
    true
}

/// Whether two paths have the same value.
pub fn path_equal(a: &TyPath, b: &TyPath) -> (r: bool)
    ensures
        r == (a@ == b@),
    decreases a, 0int,
{
    let q = match (&a.qself, &b.qself) {
        (Some(x), Some(y)) => {
            proof {
                assert(decreases_to!(*a => a.qself));
                assert(decreases_to!(a.qself => a.qself->0));
                assert(decreases_to!(a.qself->0 => a.qself->0.ty));
            }
            x.position == y.position && x.has_as == y.has_as && ty_equal(&x.ty, &y.ty)
        },
        (None, None) => true,
        _ => false,
    };
    if !q || a.leading_colon != b.leading_colon {
        return false;
    }
    proof {
        assert(decreases_to!(*a => a.segments));
    }
    segments_equal(&a.segments, &b.segments)
}

fn segments_equal(a: &Vec<PathSegment>, b: &Vec<PathSegment>) -> (r: bool)
    ensures
        r == (segments_view(a@) == segments_view(b@)),
    decreases a, 1int,
{
    if a.len() != b.len() {
        assert(segments_view(a@).len() != segments_view(b@).len());
        return false;
    }
    let mut i: usize = 0;
    while i < a.len()
        invariant
            a@.len() == b@.len(),
            i <= a@.len(),
            forall|j: int| 0 <= j < i ==> (#[trigger] a@[j]).ident@ == b@[j].ident@ && a@[j].args@ == b@[j].args@,
        decreases a@.len() - i,
    {
        proof {
            assert(decreases_to!(*a => a@));
            assert(decreases_to!(a@ => a@[i as int]));
            assert(decreases_to!(a@[i as int] => a@[i as int].args));
        }
        if !str_eq(a[i].ident.as_str(), b[i].ident.as_str()) || !path_args_equal(&a[i].args, &b[i].args) {
            assert(segments_view(a@)[i as int] != segments_view(b@)[i as int]);
            return false;
        }
        i = i + 1;
    }
    assert(segments_view(a@) =~= segments_view(b@));
    true
}

fn path_args_equal(a: &PathArgs, b: &PathArgs) -> (r: bool)
    ensures
        r == (a@ == b@),
    decreases a, 0int,
{
    match (a, b) {
        (PathArgs::Bare, PathArgs::Bare) => true,
        (PathArgs::Angle(x), PathArgs::Angle(y)) => {
            proof {
                assert(decreases_to!(*a => (*a)->Angle_0));
            }
            generic_args_equal(x, y)
        },
        (PathArgs::Parenthesized(i1, o1), PathArgs::Parenthesized(i2, o2)) => {
            proof {
                assert(decreases_to!(*a => (*a)->Parenthesized_0));
                assert(decreases_to!(*a => (*a)->Parenthesized_1));
            }
            if !tys_equal(i1, i2) {
                return false;
            }
            match (o1, o2) {
                (Some(x), Some(y)) => {
                    proof {
                        assert(decreases_to!((*a)->Parenthesized_1 => (*a)->Parenthesized_1->0));
                    }
                    ty_equal(x, y)
                },
                (None, None) => true,
                _ => false,
            }
        },
        _ => false,
    }
}

/// Whether two lists of generic arguments have the same value.
pub fn generic_args_equal(a: &Vec<GenericArg>, b: &Vec<GenericArg>) -> (r: bool)
    ensures
        r == (generic_args_view(a@) == generic_args_view(b@)),
    decreases a, 1int,
{
    if a.len() != b.len() {
        assert(generic_args_view(a@).len() != generic_args_view(b@).len());
        return false;
    }
    let mut i: usize = 0;
    while i < a.len()
        invariant
            a@.len() == b@.len(),
            i <= a@.len(),
            forall|j: int| 0 <= j < i ==> (#[trigger] a@[j])@ == b@[j]@,
        decreases a@.len() - i,
    {
        proof {
            assert(decreases_to!(*a => a@));
            assert(decreases_to!(a@ => a@[i as int]));
        }
        if !generic_arg_equal(&a[i], &b[i]) {
            assert(generic_args_view(a@)[i as int] != generic_args_view(b@)[i as int]);
            return false;
        }
        i = i + 1;
    }
    assert(generic_args_view(a@) =~= generic_args_view(b@));
    true
}

fn generic_arg_equal(a: &GenericArg, b: &GenericArg) -> (r: bool)
    ensures
        r == (a@ == b@),
    decreases a, 0int,
{
    match (a, b) {
        (GenericArg::Lifetime(x), GenericArg::Lifetime(y)) => str_eq(x.as_str(), y.as_str()),
        (GenericArg::Type(x), GenericArg::Type(y)) => {
            proof {
                assert(decreases_to!(*a => (*a)->Type_0));
            }
            ty_equal(x, y)
        },
        (GenericArg::Const(x), GenericArg::Const(y)) => str_eq(x.as_str(), y.as_str()),
        (GenericArg::AssocType(n1, x), GenericArg::AssocType(n2, y)) => {
            proof {
                assert(decreases_to!(*a => (*a)->AssocType_1));
            }
            str_eq(n1.as_str(), n2.as_str()) && ty_equal(x, y)
        },
        (GenericArg::AssocConst(n1, x), GenericArg::AssocConst(n2, y)) => str_eq(n1.as_str(), n2.as_str())
            && str_eq(x.as_str(), y.as_str()),
        (GenericArg::Constraint(n1, x), GenericArg::Constraint(n2, y)) => {
            proof {
                assert(decreases_to!(*a => (*a)->Constraint_1));
            }
            str_eq(n1.as_str(), n2.as_str()) && bounds_equal(x, y)
        },
        (GenericArg::Other(x), GenericArg::Other(y)) => str_eq(x.as_str(), y.as_str()),
        _ => false,
    }
}

fn bounds_equal(a: &Vec<Bound>, b: &Vec<Bound>) -> (r: bool)
    ensures
        r == (bounds_view(a@) == bounds_view(b@)),
    decreases a, 1int,
{
    if a.len() != b.len() {
        assert(bounds_view(a@).len() != bounds_view(b@).len());
        return false;
    }
    let mut i: usize = 0;
    while i < a.len()
        invariant
            a@.len() == b@.len(),
            i <= a@.len(),
            forall|j: int| 0 <= j < i ==> (#[trigger] a@[j])@ == b@[j]@,
        decreases a@.len() - i,
    {
        proof {
            assert(decreases_to!(*a => a@));
            assert(decreases_to!(a@ => a@[i as int]));
        }
        if !bound_equal(&a[i], &b[i]) {
            assert(bounds_view(a@)[i as int] != bounds_view(b@)[i as int]);
            return false;
        }
        i = i + 1;
    }
    assert(bounds_view(a@) =~= bounds_view(b@));
    true
}

fn bound_equal(a: &Bound, b: &Bound) -> (r: bool)
    ensures
        r == (a@ == b@),
    decreases a, 0int,
{
    match (a, b) {
        (Bound::Trait { maybe: m1, binder: b1, path: p1 }, Bound::Trait { maybe: m2, binder: b2, path: p2 }) => {
            proof {
                assert(decreases_to!(*a => (*a)->path));
            }
            *m1 == *m2 && keys_equal(b1, b2) && path_equal(p1, p2)
        },
        (Bound::Lifetime(x), Bound::Lifetime(y)) => str_eq(x.as_str(), y.as_str()),
        (Bound::Other(x), Bound::Other(y)) => str_eq(x.as_str(), y.as_str()),
        _ => false,
    }
}

} // verus!
