//! Tag id types in the method signatures of an impl for a trait object:
//! `<dyn Trait>::TAG` naming the impl's own self type is written
//! `<dyn Self>::TAG`.
use vstd::prelude::*;
use crate::equality::{path_equal, ty_equal};
use crate::signature::{
    FnInput, FnSig, GenericParam, Receiver, SpecFnInput, SpecGenericParam, SpecReceiver, SpecSig,
    SpecWherePredicate, WherePredicate, generics_view, inputs_view, opt_ty_view, predicates_view,
};
use crate::types::{
    Bound, GenericArg, PathArgs, PathSegment, QSelf, SpecArg, SpecArgs, SpecBound, SpecPath,
    SpecSegment, SpecTy, Ty, TyPath, bounds_view, generic_args_view, segments_view, tys_view,
};

verus! {

// ---------------------------------------------------------------------------
// The rule.

/// The path of the one plain trait bound of a trait object type: no `?`,
/// no `for<...>`, and no other bound.
pub open spec fn spec_single_trait_bound(t: SpecTy) -> Option<SpecPath> {
    match t {
        SpecTy::TraitObject { bounds, .. } => if bounds.len() == 1 {
            match bounds[0] {
                SpecBound::Trait { maybe, binder, path } => if !maybe && binder.len() == 0 {
                    Some(path)
                } else {
                    None
                },
                _ => None,
            }
        } else {
            None
        },
        _ => None,
    }
}

/// The path of the one plain trait bound of a trait object type.
pub fn trait_object_single_trait_bound(self_ty: &Ty) -> (r: Option<&TyPath>)
    ensures
        match r {
            Some(p) => spec_single_trait_bound(self_ty@) == Some(p@),
            None => spec_single_trait_bound(self_ty@) is None,
        },
{
    match self_ty {
        Ty::TraitObject { bounds, .. } => {
            if bounds.len() != 1 {
                return None;
            }
            assert(bounds_view(bounds@)[0] == crate::types::bound_view(bounds@[0]));
            match &bounds[0] {
                Bound::Trait { maybe, binder, path } => if !*maybe && binder.len() == 0 {
                    Some(path)
                } else {
                    None
                },
                _ => None,
            }
        },
        _ => None,
    }
}

/// `dyn Self`.
pub open spec fn spec_dyn_self() -> SpecTy {
    SpecTy::TraitObject {
        bounds: seq![
            SpecBound::Trait {
                maybe: false,
                binder: Seq::empty(),
                path: SpecPath {
                    qself: None,
                    leading_colon: false,
                    segments: seq![SpecSegment { ident: "Self"@, args: SpecArgs::Bare }],
                },
            },
        ],
        text: "dyn Self"@,
    }
}

/// The tag path with its qualified self type replaced by `dyn Self`.
pub open spec fn spec_dyn_self_tag(p: SpecPath) -> SpecPath {
    match p.qself {
        Some((_, position, has_as)) => SpecPath {
            qself: Some((Box::new(spec_dyn_self()), position, has_as)),
            leading_colon: p.leading_colon,
            segments: p.segments,
        },
        None => p,
    }
}

/// Whether a type path is `<Q>::TAG` with `Q` the receiver type `recv`, or
/// a path equal to the receiver's one trait bound `bound`.
pub open spec fn is_receiver_tag(p: SpecPath, recv: SpecTy, bound: Option<SpecPath>) -> bool {
    &&& p.qself is Some
    &&& p.segments.len() == 1
    &&& p.segments[0].ident == "TAG"@
    &&& p.segments[0].args is Bare
    &&& match p.qself {
        Some((q, _, _)) => *q == recv || (*q matches SpecTy::Path(qp) && bound == Some(qp)),
        None => false,
    }
}

// ---------------------------------------------------------------------------
// The rewrite, over every type of a signature.

/// A type with each receiver tag path in it written with `dyn Self`.
pub open spec fn spec_tag_ty(t: SpecTy, recv: SpecTy, bound: Option<SpecPath>) -> SpecTy
    decreases t, 0int,
{
    match t {
        SpecTy::Path(p) => SpecTy::Path(
            if is_receiver_tag(p, recv, bound) {
                spec_dyn_self_tag(p)
            } else {
                spec_tag_path(p, recv, bound)
            },
        ),
        SpecTy::Reference { lifetime, mutable, elem } => SpecTy::Reference {
            lifetime,
            mutable,
            elem: Box::new(spec_tag_ty(*elem, recv, bound)),
        },
        SpecTy::Ptr { mutable, elem } => SpecTy::Ptr { mutable, elem: Box::new(spec_tag_ty(*elem, recv, bound)) },
        SpecTy::Slice(elem) => SpecTy::Slice(Box::new(spec_tag_ty(*elem, recv, bound))),
        SpecTy::Array { elem, len } => SpecTy::Array { elem: Box::new(spec_tag_ty(*elem, recv, bound)), len },
        SpecTy::Tuple(elems) => SpecTy::Tuple(spec_tag_tys(elems, elems.len() as int, recv, bound)),
        SpecTy::ImplTrait { bounds, text } => SpecTy::ImplTrait {
            bounds: spec_tag_bounds(bounds, bounds.len() as int, recv, bound),
            text,
        },
        SpecTy::TraitObject { bounds, text } => SpecTy::TraitObject {
            bounds: spec_tag_bounds(bounds, bounds.len() as int, recv, bound),
            text,
        },
        SpecTy::Paren { elem, text } => SpecTy::Paren { elem: Box::new(spec_tag_ty(*elem, recv, bound)), text },
        SpecTy::Group { elem, text } => SpecTy::Group { elem: Box::new(spec_tag_ty(*elem, recv, bound)), text },
        _ => t,
    }
}

/// The first `n` types, rewritten.
pub open spec fn spec_tag_tys(s: Seq<SpecTy>, n: int, recv: SpecTy, bound: Option<SpecPath>) -> Seq<SpecTy>
    decreases s, n,
{
    if n <= 0 || n > s.len() {
        Seq::empty()
    } else {
        spec_tag_tys(s, n - 1, recv, bound).push(spec_tag_ty(s[n - 1], recv, bound))
    }
}

/// A path with the types inside it rewritten: its qualified self type and
/// its segments' arguments.
pub open spec fn spec_tag_path(p: SpecPath, recv: SpecTy, bound: Option<SpecPath>) -> SpecPath
    decreases p, 0int,
{
    SpecPath {
        qself: match p.qself {
            Some(q) => Some((Box::new(spec_tag_ty(*q.0, recv, bound)), q.1, q.2)),
            None => None,
        },
        leading_colon: p.leading_colon,
        segments: spec_tag_segments(p.segments, p.segments.len() as int, recv, bound),
    }
}

/// The first `n` segments, rewritten.
pub open spec fn spec_tag_segments(s: Seq<SpecSegment>, n: int, recv: SpecTy, bound: Option<SpecPath>) -> Seq<
    SpecSegment,
>
    decreases s, n,
{
    if n <= 0 || n > s.len() {
        Seq::empty()
    } else {
        spec_tag_segments(s, n - 1, recv, bound).push(
            SpecSegment { ident: s[n - 1].ident, args: spec_tag_args(s[n - 1].args, recv, bound) },
        )
    }
}

/// A segment's arguments, rewritten.
pub open spec fn spec_tag_args(a: SpecArgs, recv: SpecTy, bound: Option<SpecPath>) -> SpecArgs
    decreases a, 0int,
{
    match a {
        SpecArgs::Bare => a,
        SpecArgs::Angle(args) => SpecArgs::Angle(spec_tag_arg_list(args, args.len() as int, recv, bound)),
        SpecArgs::Parenthesized(inputs, output) => SpecArgs::Parenthesized(
            spec_tag_tys(inputs, inputs.len() as int, recv, bound),
            match output {
                Some(o) => Some(Box::new(spec_tag_ty(*o, recv, bound))),
                None => None,
            },
        ),
    }
}

/// The first `n` generic arguments, rewritten.
pub open spec fn spec_tag_arg_list(s: Seq<SpecArg>, n: int, recv: SpecTy, bound: Option<SpecPath>) -> Seq<SpecArg>
    decreases s, n,
{
    if n <= 0 || n > s.len() {
        Seq::empty()
    } else {
        spec_tag_arg_list(s, n - 1, recv, bound).push(spec_tag_arg(s[n - 1], recv, bound))
    }
}

/// One generic argument, rewritten.
pub open spec fn spec_tag_arg(a: SpecArg, recv: SpecTy, bound: Option<SpecPath>) -> SpecArg
    decreases a, 0int,
{
    match a {
        SpecArg::Type(t) => SpecArg::Type(spec_tag_ty(t, recv, bound)),
        SpecArg::AssocType(name, t) => SpecArg::AssocType(name, spec_tag_ty(t, recv, bound)),
        SpecArg::Constraint(name, bounds) => SpecArg::Constraint(
            name,
            spec_tag_bounds(bounds, bounds.len() as int, recv, bound),
        ),
        _ => a,
    }
}

/// The first `n` bounds, rewritten.
pub open spec fn spec_tag_bounds(s: Seq<SpecBound>, n: int, recv: SpecTy, bound: Option<SpecPath>) -> Seq<SpecBound>
    decreases s, n,
{
    if n <= 0 || n > s.len() {
        Seq::empty()
    } else {
        spec_tag_bounds(s, n - 1, recv, bound).push(spec_tag_bound(s[n - 1], recv, bound))
    }
}

/// One bound: a trait bound's path has the types inside it rewritten.
pub open spec fn spec_tag_bound(b: SpecBound, recv: SpecTy, bound: Option<SpecPath>) -> SpecBound
    decreases b, 0int,
{
    match b {
        SpecBound::Trait { maybe, binder, path } => SpecBound::Trait {
            maybe,
            binder,
            path: spec_tag_path(path, recv, bound),
        },
        _ => b,
    }
}

/// The first `n` generic parameters, rewritten.
pub open spec fn spec_tag_generics(s: Seq<SpecGenericParam>, n: int, recv: SpecTy, bound: Option<SpecPath>) -> Seq<
    SpecGenericParam,
>
    decreases n,
{
    if n <= 0 || n > s.len() {
        Seq::empty()
    } else {
        spec_tag_generics(s, n - 1, recv, bound).push(
            match s[n - 1] {
                SpecGenericParam::Type { name, bounds } => SpecGenericParam::Type {
                    name,
                    bounds: spec_tag_bounds(bounds, bounds.len() as int, recv, bound),
                },
                SpecGenericParam::Const { name, ty } => SpecGenericParam::Const {
                    name,
                    ty: spec_tag_ty(ty, recv, bound),
                },
                SpecGenericParam::Lifetime { .. } => s[n - 1],
            },
        )
    }
}

/// The first `n` where predicates, rewritten.
pub open spec fn spec_tag_predicates(
    s: Seq<SpecWherePredicate>,
    n: int,
    recv: SpecTy,
    bound: Option<SpecPath>,
) -> Seq<SpecWherePredicate>
    decreases n,
{
    if n <= 0 || n > s.len() {
        Seq::empty()
    } else {
        spec_tag_predicates(s, n - 1, recv, bound).push(
            match s[n - 1] {
                SpecWherePredicate::Type { ty, bounds } => SpecWherePredicate::Type {
                    ty: spec_tag_ty(ty, recv, bound),
                    bounds: spec_tag_bounds(bounds, bounds.len() as int, recv, bound),
                },
                SpecWherePredicate::Lifetime { .. } => s[n - 1],
            },
        )
    }
}

/// The first `n` parameters, rewritten.
pub open spec fn spec_tag_inputs(s: Seq<SpecFnInput>, n: int, recv: SpecTy, bound: Option<SpecPath>) -> Seq<
    SpecFnInput,
>
    decreases n,
{
    if n <= 0 || n > s.len() {
        Seq::empty()
    } else {
        spec_tag_inputs(s, n - 1, recv, bound).push(
            match s[n - 1] {
                SpecFnInput::Typed { attrs, pat, ty } => SpecFnInput::Typed {
                    attrs,
                    pat,
                    ty: spec_tag_ty(ty, recv, bound),
                },
                SpecFnInput::Receiver(SpecReceiver::Typed(t)) => SpecFnInput::Receiver(
                    SpecReceiver::Typed(spec_tag_ty(t, recv, bound)),
                ),
                SpecFnInput::Receiver(_) => s[n - 1],
            },
        )
    }
}

/// A signature with every type in it rewritten.
pub open spec fn spec_tag_sig(sig: SpecSig, recv: SpecTy, bound: Option<SpecPath>) -> SpecSig {
    SpecSig {
        generics: spec_tag_generics(sig.generics, sig.generics.len() as int, recv, bound),
        where_clause: match sig.where_clause {
            Some(w) => Some(spec_tag_predicates(w, w.len() as int, recv, bound)),
            None => None,
        },
        inputs: spec_tag_inputs(sig.inputs, sig.inputs.len() as int, recv, bound),
        output: match sig.output {
            Some(t) => Some(spec_tag_ty(t, recv, bound)),
            None => None,
        },
    }
}

// ---------------------------------------------------------------------------
// The executable rewrite.

/// The value of the receiver's trait bound.
pub open spec fn bound_view(b: Option<&TyPath>) -> Option<SpecPath> {
    match b {
        Some(p) => Some(p@),
        None => None,
    }
}

/// `dyn Self`.
pub(crate) fn dyn_self() -> (r: Ty)
    ensures
        r@ == spec_dyn_self(),
{
    let seg = PathSegment { ident: "Self".to_owned(), args: PathArgs::Bare };
    let segments = vec![seg];
    proof {
        reveal_strlit("Self");
        assert(segments_view(segments@) =~= seq![SpecSegment { ident: "Self"@, args: SpecArgs::Bare }]);
    }
    let path = TyPath { qself: None, leading_colon: false, segments };
    let ghost pv = SpecPath {
        qself: None,
        leading_colon: false,
        segments: seq![SpecSegment { ident: "Self"@, args: SpecArgs::Bare }],
    };
    assert(crate::types::path_view(path) == pv);
    let b = Bound::Trait { maybe: false, binder: Vec::new(), path };
    assert(crate::types::strings_view(Seq::<String>::empty()) =~= Seq::<Seq<char>>::empty());
    assert(crate::types::bound_view(b) == SpecBound::Trait { maybe: false, binder: Seq::empty(), path: pv });
    let bounds = vec![b];
    assert(bounds_view(bounds@) =~= seq![SpecBound::Trait { maybe: false, binder: Seq::empty(), path: pv }]);
    let r = Ty::TraitObject { bounds, text: "dyn Self".to_owned() };
    proof {
        reveal_strlit("dyn Self");
    }
    r
}

/// Whether a type path is a tag path naming the receiver.
fn receiver_tag(p: &TyPath, recv: &Ty, bound: Option<&TyPath>) -> (r: bool)
    ensures
        r == is_receiver_tag(p@, recv@, bound_view(bound)),
{
    proof {
        reveal_strlit("TAG");
    }
    let q = match &p.qself {
        Some(q) => q,
        None => {
            return false;
        },
    };
    if p.segments.len() != 1 {
        return false;
    }
    assert(p@.segments[0] == SpecSegment {
        ident: p.segments@[0].ident@,
        args: crate::types::path_args_view(p.segments@[0].args),
    });
    if !crate::text::str_eq(p.segments[0].ident.as_str(), "TAG") {
        return false;
    }
    if !matches!(p.segments[0].args, PathArgs::Bare) {
        return false;
    }
    if ty_equal(&q.ty, recv) {
        return true;
    }
    match (&*q.ty, bound) {
        (Ty::Path(qp), Some(b)) => path_equal(qp, b),
        _ => false,
    }
}

fn tag_ty(t: Ty, recv: &Ty, bound: Option<&TyPath>) -> (r: Ty)
    ensures
        r@ == spec_tag_ty(t@, recv@, bound_view(bound)),
    decreases t, 0int,
{
    let ghost t0 = t;
    match t {
        Ty::Path(p) => {
            proof {
                assert(decreases_to!(t0 => t0->Path_0));
            }
            if receiver_tag(&p, recv, bound) {
                let TyPath { qself, leading_colon, segments } = p;
                let ghost segs = segments@;
                match qself {
                    Some(QSelf { ty, position, has_as }) => {
                        let d = dyn_self();
                        let p1 = TyPath {
                            qself: Some(QSelf { ty: Box::new(d), position, has_as }),
                            leading_colon,
                            segments,
                        };
                        assert(p1@ == spec_dyn_self_tag(t0->Path_0@));
                        Ty::Path(p1)
                    },
                    None => Ty::Path(TyPath { qself: None, leading_colon, segments }),
                }
            } else {
                Ty::Path(tag_path(p, recv, bound))
            }
        },
        Ty::Reference { lifetime, mutable, elem } => {
            proof {
                assert(decreases_to!(t0 => t0->Reference_elem));
            }
            Ty::Reference { lifetime, mutable, elem: Box::new(tag_ty(*elem, recv, bound)) }
        },
        Ty::Ptr { mutable, elem } => {
            proof {
                assert(decreases_to!(t0 => t0->Ptr_elem));
            }
            Ty::Ptr { mutable, elem: Box::new(tag_ty(*elem, recv, bound)) }
        },
        Ty::Slice(elem) => {
            proof {
                assert(decreases_to!(t0 => t0->Slice_0));
            }
            Ty::Slice(Box::new(tag_ty(*elem, recv, bound)))
        },
        Ty::Array { elem, len } => {
            proof {
                assert(decreases_to!(t0 => t0->Array_elem));
            }
            Ty::Array { elem: Box::new(tag_ty(*elem, recv, bound)), len }
        },
        Ty::Tuple(elems) => {
            proof {
                assert(decreases_to!(t0 => t0->Tuple_0));
            }
            Ty::Tuple(tag_tys(elems, recv, bound))
        },
        Ty::ImplTrait { bounds, text } => {
            proof {
                assert(decreases_to!(t0 => t0->ImplTrait_bounds));
            }
            Ty::ImplTrait { bounds: tag_bounds(bounds, recv, bound), text }
        },
        Ty::TraitObject { bounds, text } => {
            proof {
                assert(decreases_to!(t0 => t0->TraitObject_bounds));
            }
            Ty::TraitObject { bounds: tag_bounds(bounds, recv, bound), text }
        },
        Ty::Paren { elem, text } => {
            proof {
                assert(decreases_to!(t0 => t0->Paren_elem));
            }
            Ty::Paren { elem: Box::new(tag_ty(*elem, recv, bound)), text }
        },
        Ty::Group { elem, text } => {
            proof {
                assert(decreases_to!(t0 => t0->Group_elem));
            }
            Ty::Group { elem: Box::new(tag_ty(*elem, recv, bound)), text }
        },
        Ty::FnPtr { binder, output, text } => Ty::FnPtr { binder, output, text },
        Ty::Infer => Ty::Infer,
        Ty::Other(text) => Ty::Other(text),
    }
}

#[verifier::loop_isolation(false)]
fn tag_tys(v: Vec<Ty>, recv: &Ty, bound: Option<&TyPath>) -> (r: Vec<Ty>)
    ensures
        tys_view(r@) == spec_tag_tys(tys_view(v@), v@.len() as int, recv@, bound_view(bound)),
    decreases v, 1int,
{
    let ghost v0 = v;
    let ghost sv = tys_view(v@);
    let n = v.len();
    let mut v = v;
    let mut r: Vec<Ty> = Vec::new();
    let mut k: usize = 0;
    while k < n
        invariant
            k <= n,
            n == v0@.len(),
            sv == tys_view(v0@),
            v@ == v0@.subrange(k as int, n as int),
            tys_view(r@) == spec_tag_tys(sv, k as int, recv@, bound_view(bound)),
        decreases n - k,
    {
        let ghost r0 = r@;
        let e = v.remove(0);
        proof {
            assert(e == v0@[k as int]);
            assert(decreases_to!(v0 => v0@));
            assert(decreases_to!(v0@ => v0@[k as int]));
        }
        let e1 = tag_ty(e, recv, bound);
        r.push(e1);
        k = k + 1;
        assert(tys_view(r@) =~= tys_view(r0).push(e1@));
        assert(v@ =~= v0@.subrange(k as int, n as int));
    }
    r
}

fn tag_path(p: TyPath, recv: &Ty, bound: Option<&TyPath>) -> (r: TyPath)
    ensures
        r@ == spec_tag_path(p@, recv@, bound_view(bound)),
    decreases p, 0int,
{
    let ghost p0 = p;
    let TyPath { qself, leading_colon, segments } = p;
    let q = match qself {
        Some(q) => {
            proof {
                assert(decreases_to!(p0 => p0.qself));
                assert(decreases_to!(p0.qself => p0.qself->0));
                assert(decreases_to!(p0.qself->0 => p0.qself->0.ty));
            }
            let QSelf { ty, position, has_as } = q;
            Some(QSelf { ty: Box::new(tag_ty(*ty, recv, bound)), position, has_as })
        },
        None => None,
    };
    proof {
        assert(decreases_to!(p0 => p0.segments));
    }
    let segs = tag_segments(segments, recv, bound);
    TyPath { qself: q, leading_colon, segments: segs }
}

#[verifier::loop_isolation(false)]
fn tag_segments(v: Vec<PathSegment>, recv: &Ty, bound: Option<&TyPath>) -> (r: Vec<PathSegment>)
    ensures
        segments_view(r@) == spec_tag_segments(segments_view(v@), v@.len() as int, recv@, bound_view(bound)),
    decreases v, 1int,
{
    let ghost v0 = v;
    let ghost sv = segments_view(v@);
    let n = v.len();
    let mut v = v;
    let mut r: Vec<PathSegment> = Vec::new();
    let mut k: usize = 0;
    while k < n
        invariant
            k <= n,
            n == v0@.len(),
            sv == segments_view(v0@),
            v@ == v0@.subrange(k as int, n as int),
            segments_view(r@) == spec_tag_segments(sv, k as int, recv@, bound_view(bound)),
        decreases n - k,
    {
        let ghost r0 = r@;
        let e = v.remove(0);
        proof {
            assert(e == v0@[k as int]);
            assert(decreases_to!(v0 => v0@));
            assert(decreases_to!(v0@ => v0@[k as int]));
            assert(decreases_to!(v0@[k as int] => v0@[k as int].args));
        }
        let PathSegment { ident, args } = e;
        let a1 = tag_args(args, recv, bound);
        let seg = PathSegment { ident, args: a1 };
        r.push(seg);
        k = k + 1;
        assert(segments_view(r@) =~= segments_view(r0).push(SpecSegment { ident: seg.ident@, args: a1@ }));
        assert(v@ =~= v0@.subrange(k as int, n as int));
    }
    r
}

fn tag_args(a: PathArgs, recv: &Ty, bound: Option<&TyPath>) -> (r: PathArgs)
    ensures
        r@ == spec_tag_args(a@, recv@, bound_view(bound)),
    decreases a, 0int,
{
    let ghost a0 = a;
    match a {
        PathArgs::Bare => PathArgs::Bare,
        PathArgs::Angle(args) => {
            proof {
                assert(decreases_to!(a0 => a0->Angle_0));
            }
            PathArgs::Angle(tag_arg_list(args, recv, bound))
        },
        PathArgs::Parenthesized(inputs, output) => {
            proof {
                assert(decreases_to!(a0 => a0->Parenthesized_0));
            }
            let ins = tag_tys(inputs, recv, bound);
            match output {
                Some(o) => {
                    proof {
                        assert(decreases_to!(a0 => a0->Parenthesized_1));
                        assert(decreases_to!(a0->Parenthesized_1 => a0->Parenthesized_1->0));
                    }
                    PathArgs::Parenthesized(ins, Some(Box::new(tag_ty(*o, recv, bound))))
                },
                None => PathArgs::Parenthesized(ins, None),
            }
        },
    }
}

#[verifier::loop_isolation(false)]
fn tag_arg_list(v: Vec<GenericArg>, recv: &Ty, bound: Option<&TyPath>) -> (r: Vec<GenericArg>)
    ensures
        generic_args_view(r@) == spec_tag_arg_list(
            generic_args_view(v@),
            v@.len() as int,
            recv@,
            bound_view(bound),
        ),
    decreases v, 1int,
{
    let ghost v0 = v;
    let ghost sv = generic_args_view(v@);
    let n = v.len();
    let mut v = v;
    let mut r: Vec<GenericArg> = Vec::new();
    let mut k: usize = 0;
    while k < n
        invariant
            k <= n,
            n == v0@.len(),
            sv == generic_args_view(v0@),
            v@ == v0@.subrange(k as int, n as int),
            generic_args_view(r@) == spec_tag_arg_list(sv, k as int, recv@, bound_view(bound)),
        decreases n - k,
    {
        let ghost r0 = r@;
        let e = v.remove(0);
        proof {
            assert(e == v0@[k as int]);
            assert(decreases_to!(v0 => v0@));
            assert(decreases_to!(v0@ => v0@[k as int]));
        }
        let e1 = tag_arg(e, recv, bound);
        r.push(e1);
        k = k + 1;
        assert(generic_args_view(r@) =~= generic_args_view(r0).push(e1@));
        assert(v@ =~= v0@.subrange(k as int, n as int));
    }
    r
}

fn tag_arg(a: GenericArg, recv: &Ty, bound: Option<&TyPath>) -> (r: GenericArg)
    ensures
        r@ == spec_tag_arg(a@, recv@, bound_view(bound)),
    decreases a, 0int,
{
    let ghost a0 = a;
    match a {
        GenericArg::Type(t) => {
            proof {
                assert(decreases_to!(a0 => a0->Type_0));
            }
            GenericArg::Type(tag_ty(t, recv, bound))
        },
        GenericArg::AssocType(name, t) => {
            proof {
                assert(decreases_to!(a0 => a0->AssocType_1));
            }
            GenericArg::AssocType(name, tag_ty(t, recv, bound))
        },
        GenericArg::Constraint(name, bounds) => {
            proof {
                assert(decreases_to!(a0 => a0->Constraint_1));
            }
            GenericArg::Constraint(name, tag_bounds(bounds, recv, bound))
        },
        GenericArg::Lifetime(l) => GenericArg::Lifetime(l),
        GenericArg::Const(text) => GenericArg::Const(text),
        GenericArg::AssocConst(name, text) => GenericArg::AssocConst(name, text),
        GenericArg::Other(text) => GenericArg::Other(text),
    }
}

#[verifier::loop_isolation(false)]
fn tag_bounds(v: Vec<Bound>, recv: &Ty, bound: Option<&TyPath>) -> (r: Vec<Bound>)
    ensures
        bounds_view(r@) == spec_tag_bounds(bounds_view(v@), v@.len() as int, recv@, bound_view(bound)),
    decreases v, 1int,
{
    let ghost v0 = v;
    let ghost sv = bounds_view(v@);
    let n = v.len();
    let mut v = v;
    let mut r: Vec<Bound> = Vec::new();
    let mut k: usize = 0;
    while k < n
        invariant
            k <= n,
            n == v0@.len(),
            sv == bounds_view(v0@),
            v@ == v0@.subrange(k as int, n as int),
            bounds_view(r@) == spec_tag_bounds(sv, k as int, recv@, bound_view(bound)),
        decreases n - k,
    {
        let ghost r0 = r@;
        let e = v.remove(0);
        proof {
            assert(e == v0@[k as int]);
            assert(decreases_to!(v0 => v0@));
            assert(decreases_to!(v0@ => v0@[k as int]));
        }
        let e1 = tag_bound(e, recv, bound);
        r.push(e1);
        k = k + 1;
        assert(bounds_view(r@) =~= bounds_view(r0).push(e1@));
        assert(v@ =~= v0@.subrange(k as int, n as int));
    }
    r
}

fn tag_bound(b: Bound, recv: &Ty, bound: Option<&TyPath>) -> (r: Bound)
    ensures
        r@ == spec_tag_bound(b@, recv@, bound_view(bound)),
    decreases b, 0int,
{
    let ghost b0 = b;
    match b {
        Bound::Trait { maybe, binder, path } => {
            proof {
                assert(decreases_to!(b0 => b0->path));
            }
            Bound::Trait { maybe, binder, path: tag_path(path, recv, bound) }
        },
        Bound::Lifetime(l) => Bound::Lifetime(l),
        Bound::Other(text) => Bound::Other(text),
    }
}

#[verifier::loop_isolation(false)]
fn tag_generics(v: Vec<GenericParam>, recv: &Ty, bound: Option<&TyPath>) -> (r: Vec<GenericParam>)
    ensures
        generics_view(r@) == spec_tag_generics(generics_view(v@), v@.len() as int, recv@, bound_view(bound)),
{
    let ghost v0 = v;
    let ghost sv = generics_view(v@);
    let n = v.len();
    let mut v = v;
    let mut r: Vec<GenericParam> = Vec::new();
    let mut k: usize = 0;
    while k < n
        invariant
            k <= n,
            n == v0@.len(),
            sv == generics_view(v0@),
            v@ == v0@.subrange(k as int, n as int),
            generics_view(r@) == spec_tag_generics(sv, k as int, recv@, bound_view(bound)),
        decreases n - k,
    {
        let ghost r0 = r@;
        let e = v.remove(0);
        assert(e == v0@[k as int]);
        let e1 = match e {
            GenericParam::Type { name, bounds } => GenericParam::Type { name, bounds: tag_bounds(bounds, recv, bound) },
            GenericParam::Const { name, ty } => GenericParam::Const { name, ty: tag_ty(ty, recv, bound) },
            GenericParam::Lifetime { name, outlives } => GenericParam::Lifetime { name, outlives },
        };
        r.push(e1);
        k = k + 1;
        assert(generics_view(r@) =~= generics_view(r0).push(e1@));
        assert(v@ =~= v0@.subrange(k as int, n as int));
    }
    r
}

#[verifier::loop_isolation(false)]
fn tag_predicates(v: Vec<WherePredicate>, recv: &Ty, bound: Option<&TyPath>) -> (r: Vec<WherePredicate>)
    ensures
        predicates_view(r@) == spec_tag_predicates(
            predicates_view(v@),
            v@.len() as int,
            recv@,
            bound_view(bound),
        ),
{
    let ghost v0 = v;
    let ghost sv = predicates_view(v@);
    let n = v.len();
    let mut v = v;
    let mut r: Vec<WherePredicate> = Vec::new();
    let mut k: usize = 0;
    while k < n
        invariant
            k <= n,
            n == v0@.len(),
            sv == predicates_view(v0@),
            v@ == v0@.subrange(k as int, n as int),
            predicates_view(r@) == spec_tag_predicates(sv, k as int, recv@, bound_view(bound)),
        decreases n - k,
    {
        let ghost r0 = r@;
        let e = v.remove(0);
        assert(e == v0@[k as int]);
        let e1 = match e {
            WherePredicate::Type { ty, bounds } => WherePredicate::Type {
                ty: tag_ty(ty, recv, bound),
                bounds: tag_bounds(bounds, recv, bound),
            },
            WherePredicate::Lifetime { lifetime, outlives } => WherePredicate::Lifetime { lifetime, outlives },
        };
        r.push(e1);
        k = k + 1;
        assert(predicates_view(r@) =~= predicates_view(r0).push(e1@));
        assert(v@ =~= v0@.subrange(k as int, n as int));
    }
    r
}

#[verifier::loop_isolation(false)]
fn tag_inputs(v: Vec<FnInput>, recv: &Ty, bound: Option<&TyPath>) -> (r: Vec<FnInput>)
    ensures
        inputs_view(r@) == spec_tag_inputs(inputs_view(v@), v@.len() as int, recv@, bound_view(bound)),
{
    let ghost v0 = v;
    let ghost sv = inputs_view(v@);
    let n = v.len();
    let mut v = v;
    let mut r: Vec<FnInput> = Vec::new();
    let mut k: usize = 0;
    while k < n
        invariant
            k <= n,
            n == v0@.len(),
            sv == inputs_view(v0@),
            v@ == v0@.subrange(k as int, n as int),
            inputs_view(r@) == spec_tag_inputs(sv, k as int, recv@, bound_view(bound)),
        decreases n - k,
    {
        let ghost r0 = r@;
        let e = v.remove(0);
        assert(e == v0@[k as int]);
        let e1 = match e {
            FnInput::Typed { attrs, pat, ty } => FnInput::Typed { attrs, pat, ty: tag_ty(ty, recv, bound) },
            FnInput::Receiver(Receiver::Typed(t)) => FnInput::Receiver(Receiver::Typed(tag_ty(t, recv, bound))),
            FnInput::Receiver(rc) => FnInput::Receiver(rc),
        };
        r.push(e1);
        k = k + 1;
        assert(inputs_view(r@) =~= inputs_view(r0).push(e1@));
        assert(v@ =~= v0@.subrange(k as int, n as int));
    }
    r
}

/// The tag id types of a method signature in an impl whose self type is
/// `self_ty`: every type path `<Q>::TAG` in it, where `Q` is the self type
/// or the path of its one trait bound (for an impl on `dyn Trait`), is
/// written `<dyn Self>::TAG`; the types inside other paths, bounds,
/// arguments, generics, where predicates, parameters and the return type
/// are rewritten the same way.
pub fn normalize_dyn_self_tag_ids(self_ty: &Ty, sig: &mut FnSig)
    ensures
        final(sig)@ == spec_tag_sig(old(sig)@, self_ty@, spec_single_trait_bound(self_ty@)),
{
    let bound = trait_object_single_trait_bound(self_ty);
    assert(bound_view(bound) == spec_single_trait_bound(self_ty@));
    let mut taken = FnSig { generics: Vec::new(), where_clause: None, inputs: Vec::new(), output: None };
    std::mem::swap(&mut taken, sig);
    let FnSig { generics, where_clause, inputs, output } = taken;
    let generics = tag_generics(generics, self_ty, bound);
    let where_clause = match where_clause {
        Some(w) => Some(tag_predicates(w, self_ty, bound)),
        None => None,
    };
    let inputs = tag_inputs(inputs, self_ty, bound);
    let output = match output {
        Some(t) => Some(tag_ty(t, self_ty, bound)),
        None => None,
    };
    *sig = FnSig { generics, where_clause, inputs, output };
}

/// Whether the impl's self type is `dyn Trait` for a trait named by one of
/// the `declared` identifiers: a trait object of one plain trait bound whose
/// path is a single segment.
pub open spec fn spec_is_declared_dyn_self_impl(self_ty: SpecTy, declared: Seq<Seq<char>>) -> bool {
    match spec_single_trait_bound(self_ty) {
        Some(p) => p.segments.len() == 1 && declared.contains(p.segments[0].ident),
        None => false,
    }
}

/// Whether an impl on `self_ty` is an impl on `dyn Trait` for one of the
/// traits the block declares.
#[verifier::loop_isolation(false)]
pub fn is_declared_dyn_self_impl(self_ty: &Ty, declared: &Vec<String>) -> (r: bool)
    ensures
        r == spec_is_declared_dyn_self_impl(self_ty@, crate::types::strings_view(declared@)),
{
    let bound = match trait_object_single_trait_bound(self_ty) {
        Some(p) => p,
        None => {
            return false;
        },
    };
    if bound.segments.len() != 1 {
        return false;
    }
    assert(bound@.segments[0].ident == bound.segments@[0].ident@);
    let name = bound.segments[0].ident.as_str();
    let ghost sd = crate::types::strings_view(declared@);
    let mut i: usize = 0;
    while i < declared.len()
        invariant
            i <= declared@.len(),
            sd == crate::types::strings_view(declared@),
            forall|j: int| 0 <= j < i ==> sd[j] != name@,
        decreases declared@.len() - i,
    {
        if crate::text::str_eq(declared[i].as_str(), name) {
            assert(sd[i as int] == name@);
            assert(sd.contains(name@));
            return true;
        }
        i = i + 1;
    }
    false
}

} // verus!
