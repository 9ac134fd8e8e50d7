//! Tagged dispatch: the groups of generic parameters that an item is
//! instantiated over, their concrete targets, and the checks made on them.
use vstd::prelude::*;
use crate::types::{
    Bound, GenericArg, PathArgs, PathSegment, SpecArg, SpecArgs, SpecBound, SpecPath, SpecSegment,
    SpecTy, Ty, TyPath, bounds_view, generic_args_view, segments_view, strings_view, tys_view,
};
use crate::text::str_eq;
use crate::signature::FnInput;
use crate::tokens::{SpecTok, Tok, toks_view};

verus! {

/// The value of an optional borrowed string.
pub open spec fn opt_view(c: Option<&str>) -> Option<Seq<char>> {
    match c {
        Some(s) => Some(s@),
        None => None,
    }
}

// ---------------------------------------------------------------------------
// Which parameters a type or argument mentions, and whether it uses `Self`.

/// What a search through a type looks for: a parameter by name, or (`None`)
/// a type path starting with `Self`.
pub open spec fn path_hit(p: SpecPath, c: Option<Seq<char>>, is_type: bool) -> bool {
    p.segments.len() > 0 && match c {
        Some(name) => !p.leading_colon && p.segments[0].ident == name,
        None => is_type && p.qself is None && p.segments[0].ident == "Self"@,
    }
}

/// Whether a path, or its qualified self type or segment arguments, is what
/// the search looks for. A parameter is named by a path without a leading
/// `::` whose first segment is its name; `Self` by a type path without a
/// qualified self type whose first segment is `Self`. Constant expressions,
/// array lengths, the parameters of function pointer types and types kept as
/// text are not looked into.
pub open spec fn path_refers(p: SpecPath, c: Option<Seq<char>>, is_type: bool) -> bool
    decreases p, 0int,
{
    (match p.qself {
        Some(q) => ty_refers(*q.0, c),
        None => false,
    }) || path_hit(p, c, is_type) || segments_refer(p.segments, p.segments.len() as int, c)
}

/// Whether the arguments of one of the first `n` segments hold it.
pub open spec fn segments_refer(s: Seq<SpecSegment>, n: int, c: Option<Seq<char>>) -> bool
    decreases s, n,
{
    if n <= 0 || n > s.len() {
        false
    } else {
        segments_refer(s, n - 1, c) || args_refer(s[n - 1].args, c)
    }
}

/// Whether a segment's arguments hold it.
pub open spec fn args_refer(a: SpecArgs, c: Option<Seq<char>>) -> bool
    decreases a, 0int,
{
    match a {
        SpecArgs::Bare => false,
        SpecArgs::Angle(args) => arg_list_refers(args, args.len() as int, c),
        SpecArgs::Parenthesized(inputs, output) => tys_refer(inputs, inputs.len() as int, c)
            || match output {
            Some(o) => ty_refers(*o, c),
            None => false,
        },
    }
}

/// Whether one of the first `n` generic arguments holds it.
pub open spec fn arg_list_refers(s: Seq<SpecArg>, n: int, c: Option<Seq<char>>) -> bool
    decreases s, n,
{
    if n <= 0 || n > s.len() {
        false
    } else {
        arg_list_refers(s, n - 1, c) || arg_refers(s[n - 1], c)
    }
}

/// Whether a generic argument holds it.
pub open spec fn arg_refers(a: SpecArg, c: Option<Seq<char>>) -> bool
    decreases a, 0int,
{
    match a {
        SpecArg::Type(t) => ty_refers(t, c),
        SpecArg::AssocType(_, t) => ty_refers(t, c),
        SpecArg::Constraint(_, bounds) => bounds_refer(bounds, bounds.len() as int, c),
        _ => false,
    }
}

/// Whether one of the first `n` bounds holds it.
pub open spec fn bounds_refer(s: Seq<SpecBound>, n: int, c: Option<Seq<char>>) -> bool
    decreases s, n,
{
    if n <= 0 || n > s.len() {
        false
    } else {
        bounds_refer(s, n - 1, c) || bound_refers(s[n - 1], c)
    }
}

/// Whether a bound holds it: a trait bound through its path.
pub open spec fn bound_refers(b: SpecBound, c: Option<Seq<char>>) -> bool
    decreases b, 0int,
{
    match b {
        SpecBound::Trait { path, .. } => path_refers(path, c, false),
        _ => false,
    }
}

/// Whether one of the first `n` types holds it.
pub open spec fn tys_refer(s: Seq<SpecTy>, n: int, c: Option<Seq<char>>) -> bool
    decreases s, n,
{
    if n <= 0 || n > s.len() {
        false
    } else {
        tys_refer(s, n - 1, c) || ty_refers(s[n - 1], c)
    }
}

/// Whether a type holds what the search looks for anywhere in its structure.
pub open spec fn ty_refers(t: SpecTy, c: Option<Seq<char>>) -> bool
    decreases t, 0int,
{
    match t {
        SpecTy::Path(p) => path_refers(p, c, true),
        SpecTy::Reference { elem, .. } => ty_refers(*elem, c),
        SpecTy::Ptr { elem, .. } => ty_refers(*elem, c),
        SpecTy::Slice(elem) => ty_refers(*elem, c),
        SpecTy::Array { elem, .. } => ty_refers(*elem, c),
        SpecTy::Tuple(elems) => tys_refer(elems, elems.len() as int, c),
        SpecTy::FnPtr { output, .. } => match output {
            Some(o) => ty_refers(*o, c),
            None => false,
        },
        SpecTy::ImplTrait { bounds, .. } => bounds_refer(bounds, bounds.len() as int, c),
        SpecTy::TraitObject { bounds, .. } => bounds_refer(bounds, bounds.len() as int, c),
        SpecTy::Paren { elem, .. } => ty_refers(*elem, c),
        SpecTy::Group { elem, .. } => ty_refers(*elem, c),
        _ => false,
    }
}

fn path_refers_exec(p: &TyPath, c: Option<&str>, is_type: bool) -> (r: bool)
    ensures
        r == path_refers(p@, opt_view(c), is_type),
    decreases p, 0int,
{
    let q = match &p.qself {
        Some(q) => {
            proof {
                assert(decreases_to!(*p => p.qself));
                assert(decreases_to!(p.qself => p.qself->0));
                assert(decreases_to!(p.qself->0 => p.qself->0.ty));
            }
            ty_refers_exec(&q.ty, c)
        },
        None => false,
    };
    if q {
        return true;
    }
    if p.segments.len() > 0 {
        assert(segments_view(p.segments@)[0] == SpecSegment {
            ident: p.segments@[0].ident@,
            args: p.segments@[0].args@,
        });
        let hit = match c {
            Some(name) => !p.leading_colon && str_eq(p.segments[0].ident.as_str(), name),
            None => is_type && p.qself.is_none() && str_eq(p.segments[0].ident.as_str(), "Self"),
        };
        if hit {
            return true;
        }
    }
    proof {
        assert(decreases_to!(*p => p.segments));
    }
    segments_refer_exec(&p.segments, c)
}

fn segments_refer_exec(v: &Vec<PathSegment>, c: Option<&str>) -> (r: bool)
    ensures
        r == segments_refer(segments_view(v@), v@.len() as int, opt_view(c)),
    decreases v, 1int,
{
    let ghost sv = segments_view(v@);
    let mut i: usize = 0;
    while i < v.len()
        invariant
            i <= v@.len(),
            sv == segments_view(v@),
            !segments_refer(sv, i as int, opt_view(c)),
        decreases v@.len() - i,
    {
        proof {
            assert(decreases_to!(*v => v@));
            assert(decreases_to!(v@ => v@[i as int]));
            assert(decreases_to!(v@[i as int] => v@[i as int].args));
        }
        if args_refer_exec(&v[i].args, c) {
            assert(segments_refer(sv, i + 1, opt_view(c)));
            proof {
                lemma_segments_refer_mono(sv, i + 1, v@.len() as int, opt_view(c));
            }
            return true;
        }
        i = i + 1;
    }
    false
}

fn args_refer_exec(a: &PathArgs, c: Option<&str>) -> (r: bool)
    ensures
        r == args_refer(a@, opt_view(c)),
    decreases a, 0int,
{
    match a {
        PathArgs::Bare => false,
        PathArgs::Angle(args) => {
            proof {
                assert(decreases_to!(*a => (*a)->Angle_0));
            }
            arg_list_refers_exec(args, c)
        },
        PathArgs::Parenthesized(inputs, output) => {
            proof {
                assert(decreases_to!(*a => (*a)->Parenthesized_0));
                assert(decreases_to!(*a => (*a)->Parenthesized_1));
            }
            if tys_refer_exec(inputs, c) {
                return true;
            }
            match output {
                Some(o) => {
                    proof {
                        assert(decreases_to!((*a)->Parenthesized_1 => (*a)->Parenthesized_1->0));
                    }
                    ty_refers_exec(o, c)
                },
                None => false,
            }
        },
    }
}

fn arg_list_refers_exec(v: &Vec<GenericArg>, c: Option<&str>) -> (r: bool)
    ensures
        r == arg_list_refers(generic_args_view(v@), v@.len() as int, opt_view(c)),
    decreases v, 1int,
{
    let ghost sv = generic_args_view(v@);
    let mut i: usize = 0;
    while i < v.len()
        invariant
            i <= v@.len(),
            sv == generic_args_view(v@),
            !arg_list_refers(sv, i as int, opt_view(c)),
        decreases v@.len() - i,
    {
        proof {
            assert(decreases_to!(*v => v@));
            assert(decreases_to!(v@ => v@[i as int]));
        }
        if arg_refers_exec(&v[i], c) {
            assert(arg_list_refers(sv, i + 1, opt_view(c)));
            proof {
                lemma_arg_list_refers_mono(sv, i + 1, v@.len() as int, opt_view(c));
            }
            return true;
        }
        i = i + 1;
    }
    false
}

/// Tests whether the generic argument holds what the search looks for.
pub fn arg_refers_exec(a: &GenericArg, c: Option<&str>) -> (r: bool)
    ensures
        r == arg_refers(a@, opt_view(c)),
    decreases a, 0int,
{
    match a {
        GenericArg::Type(t) => {
            proof {
                assert(decreases_to!(*a => (*a)->Type_0));
            }
            ty_refers_exec(t, c)
        },
        GenericArg::AssocType(_, t) => {
            proof {
                assert(decreases_to!(*a => (*a)->AssocType_1));
            }
            ty_refers_exec(t, c)
        },
        GenericArg::Constraint(_, bounds) => {
            proof {
                assert(decreases_to!(*a => (*a)->Constraint_1));
            }
            bounds_refer_exec(bounds, c)
        },
        _ => false,
    }
}

fn bounds_refer_exec(v: &Vec<Bound>, c: Option<&str>) -> (r: bool)
    ensures
        r == bounds_refer(bounds_view(v@), v@.len() as int, opt_view(c)),
    decreases v, 1int,
{
    let ghost sv = bounds_view(v@);
    let mut i: usize = 0;
    while i < v.len()
        invariant
            i <= v@.len(),
            sv == bounds_view(v@),
            !bounds_refer(sv, i as int, opt_view(c)),
        decreases v@.len() - i,
    {
        proof {
            assert(decreases_to!(*v => v@));
            assert(decreases_to!(v@ => v@[i as int]));
        }
        assert(sv[i as int] == v@[i as int]@);
        if bound_refers_exec(&v[i], c) {
            assert(bounds_refer(sv, i + 1, opt_view(c)));
            proof {
                lemma_bounds_refer_mono(sv, i + 1, v@.len() as int, opt_view(c));
            }
            return true;
        }
        i = i + 1;
    }
    false
}

fn bound_refers_exec(b: &Bound, c: Option<&str>) -> (r: bool)
    ensures
        r == bound_refers(b@, opt_view(c)),
    decreases b, 0int,
{
    match b {
        Bound::Trait { path, .. } => {
            proof {
                assert(decreases_to!(*b => (*b)->Trait_path));
            }
            path_refers_exec(path, c, false)
        },
        _ => false,
    }
}

fn tys_refer_exec(v: &Vec<Ty>, c: Option<&str>) -> (r: bool)
    ensures
        r == tys_refer(tys_view(v@), v@.len() as int, opt_view(c)),
    decreases v, 1int,
{
    let ghost sv = tys_view(v@);
    let mut i: usize = 0;
    while i < v.len()
        invariant
            i <= v@.len(),
            sv == tys_view(v@),
            !tys_refer(sv, i as int, opt_view(c)),
        decreases v@.len() - i,
    {
        proof {
            assert(decreases_to!(*v => v@));
            assert(decreases_to!(v@ => v@[i as int]));
        }
        if ty_refers_exec(&v[i], c) {
            assert(tys_refer(sv, i + 1, opt_view(c)));
            proof {
                lemma_tys_refer_mono(sv, i + 1, v@.len() as int, opt_view(c));
            }
            return true;
        }
        i = i + 1;
    }
    false
}

/// Tests whether the type holds what the search looks for.
pub fn ty_refers_exec(t: &Ty, c: Option<&str>) -> (r: bool)
    ensures
        r == ty_refers(t@, opt_view(c)),
    decreases t, 0int,
{
    match t {
        Ty::Path(p) => {
            proof {
                assert(decreases_to!(*t => (*t)->Path_0));
            }
            path_refers_exec(p, c, true)
        },
        Ty::Reference { elem, .. } => {
            proof {
                assert(decreases_to!(*t => (*t)->Reference_elem));
            }
            ty_refers_exec(elem, c)
        },
        Ty::Ptr { elem, .. } => {
            proof {
                assert(decreases_to!(*t => (*t)->Ptr_elem));
            }
            ty_refers_exec(elem, c)
        },
        Ty::Slice(elem) => {
            proof {
                assert(decreases_to!(*t => (*t)->Slice_0));
            }
            ty_refers_exec(elem, c)
        },
        Ty::Array { elem, .. } => {
            proof {
                assert(decreases_to!(*t => (*t)->Array_elem));
            }
            ty_refers_exec(elem, c)
        },
        Ty::Tuple(elems) => {
            proof {
                assert(decreases_to!(*t => (*t)->Tuple_0));
            }
            tys_refer_exec(elems, c)
        },
        Ty::FnPtr { output, .. } => match output {
            Some(o) => {
                proof {
                    assert(decreases_to!(*t => (*t)->FnPtr_output));
                    assert(decreases_to!((*t)->FnPtr_output => (*t)->FnPtr_output->0));
                }
                ty_refers_exec(o, c)
            },
            None => false,
        },
        Ty::ImplTrait { bounds, .. } => {
            proof {
                assert(decreases_to!(*t => (*t)->ImplTrait_bounds));
            }
            bounds_refer_exec(bounds, c)
        },
        Ty::TraitObject { bounds, .. } => {
            proof {
                assert(decreases_to!(*t => (*t)->TraitObject_bounds));
            }
            bounds_refer_exec(bounds, c)
        },
        Ty::Paren { elem, .. } => {
            proof {
                assert(decreases_to!(*t => (*t)->Paren_elem));
            }
            ty_refers_exec(elem, c)
        },
        Ty::Group { elem, .. } => {
            proof {
                assert(decreases_to!(*t => (*t)->Group_elem));
            }
            ty_refers_exec(elem, c)
        },
        _ => false,
    }
}

proof fn lemma_segments_refer_mono(s: Seq<SpecSegment>, i: int, j: int, c: Option<Seq<char>>)
    requires
        0 <= i <= j <= s.len(),
        segments_refer(s, i, c),
    ensures
        segments_refer(s, j, c),
    decreases j,
{
    if j > i {
        lemma_segments_refer_mono(s, i, j - 1, c);
    }
}

proof fn lemma_arg_list_refers_mono(s: Seq<SpecArg>, i: int, j: int, c: Option<Seq<char>>)
    requires
        0 <= i <= j <= s.len(),
        arg_list_refers(s, i, c),
    ensures
        arg_list_refers(s, j, c),
    decreases j,
{
    if j > i {
        lemma_arg_list_refers_mono(s, i, j - 1, c);
    }
}

proof fn lemma_bounds_refer_mono(s: Seq<SpecBound>, i: int, j: int, c: Option<Seq<char>>)
    requires
        0 <= i <= j <= s.len(),
        bounds_refer(s, i, c),
    ensures
        bounds_refer(s, j, c),
    decreases j,
{
    if j > i {
        lemma_bounds_refer_mono(s, i, j - 1, c);
    }
}

proof fn lemma_tys_refer_mono(s: Seq<SpecTy>, i: int, j: int, c: Option<Seq<char>>)
    requires
        0 <= i <= j <= s.len(),
        tys_refer(s, i, c),
    ensures
        tys_refer(s, j, c),
    decreases j,
{
    if j > i {
        lemma_tys_refer_mono(s, i, j - 1, c);
    }
}

/// Whether a dispatch target argument depends on the parameter `param`: it
/// mentions it, or it uses `Self` and the implementing type mentions it.
pub open spec fn target_mentions_param(arg: SpecArg, param: Seq<char>, self_ty: Option<SpecTy>) -> bool {
    arg_refers(arg, Some(param)) || match self_ty {
        Some(t) => arg_refers(arg, None) && ty_refers(t, Some(param)),
        None => false,
    }
}

/// Tests whether a dispatch target argument depends on the parameter `param`.
pub fn dispatch_target_mentions_param(target: &GenericArg, param: &str, self_ty: Option<&Ty>) -> (r: bool)
    ensures
        r == target_mentions_param(target@, param@, match self_ty {
            Some(t) => Some(t@),
            None => None,
        }),
{
    if arg_refers_exec(target, Some(param)) {
        return true;
    }
    match self_ty {
        Some(t) => arg_refers_exec(target, None) && ty_refers_exec(t, Some(param)),
        None => false,
    }
}

// ---------------------------------------------------------------------------
// Handle ids.

/// What a handle id type `<dyn Trait>::ID` names.
#[derive(Debug, PartialEq, Eq)]
pub enum HandleId {
    DynType(String),
    DynSelf,
}

/// What a handle id type `<dyn Trait>::ID` names: the path is the single
/// bare segment `ID` on a qualified self type without `as`, which is a trait
/// object of one plain trait bound named by at most one segment.
pub open spec fn spec_handle_id(ty: Ty) -> Option<HandleId> {
    match ty {
        Ty::Path(p) => match p.qself {
            Some(q) => if q.position == 0 && !q.has_as && p.segments@.len() == 1
                && p.segments@[0].ident@ == "ID"@ && p.segments@[0].args is Bare {
                match *q.ty {
                    Ty::TraitObject { bounds, .. } => if bounds@.len() == 1 {
                        match bounds@[0] {
                            Bound::Trait { maybe, binder, path } => if !maybe && binder@.len() == 0
                                && path.segments@.len() <= 1 {
                                if crate::types::spec_path_is_ident(path, "Self"@) {
                                    Some(HandleId::DynSelf)
                                } else if path.segments@.len() == 1 {
                                    Some(HandleId::DynType(path.segments@[0].ident))
                                } else {
                                    None
                                }
                            } else {
                                None
                            },
                            _ => None,
                        }
                    } else {
                        None
                    },
                    _ => None,
                }
            } else {
                None
            },
            None => None,
        },
        _ => None,
    }
}

/// What a handle id type `<dyn Trait>::ID` names, if the type is one.
pub fn handle_id(ty: &Ty) -> (r: Option<HandleId>)
    ensures
        r == spec_handle_id(*ty),
{
    let p = match ty {
        Ty::Path(p) => p,
        _ => return None,
    };
    let q = match &p.qself {
        Some(q) => q,
        None => return None,
    };
    if !(q.position == 0 && !q.has_as && p.segments.len() == 1 && match &p.segments[0].args {
        PathArgs::Bare => true,
        _ => false,
    } && str_eq(p.segments[0].ident.as_str(), "ID")) {
        return None;
    }
    let bounds = match &*q.ty {
        Ty::TraitObject { bounds, .. } => bounds,
        _ => return None,
    };
    if bounds.len() != 1 {
        return None;
    }
    match &bounds[0] {
        Bound::Trait { maybe, binder, path } => {
            if *maybe || binder.len() != 0 || path.segments.len() > 1 {
                return None;
            }
            if crate::types::path_is_ident(path, "Self") {
                Some(HandleId::DynSelf)
            } else if path.segments.len() == 1 {
                Some(HandleId::DynType(path.segments[0].ident.clone()))
            } else {
                None
            }
        },
        _ => None,
    }
}

/// Whether a parameter is a handle id: a typed parameter of a handle id type.
pub open spec fn spec_is_handle_id_arg(input: FnInput) -> bool {
    match input {
        FnInput::Typed { ty, .. } => spec_handle_id(ty) is Some,
        FnInput::Receiver(_) => false,
    }
}

/// Tests whether a parameter is a handle id.
pub fn is_handle_id_arg(input: &FnInput) -> (r: bool)
    ensures
        r == spec_is_handle_id_arg(*input),
{
    match input {
        FnInput::Typed { ty, .. } => match handle_id(ty) {
            Some(_) => true,
            None => false,
        },
        FnInput::Receiver(_) => false,
    }
}

/// The selector named by the type of an `_id` argument, `<Selector>::ID` or
/// `Selector::ID`: the qualified self type (as a plain path where it is
/// one), or the path without its last segment `ID`.
pub open spec fn spec_selector(t: SpecTy) -> Option<SpecTy> {
    match t {
        SpecTy::Path(p) => if p.segments.len() == 0 || p.segments.last().ident != "ID"@ {
            None
        } else {
            match p.qself {
                Some(q) => match *q.0 {
                    SpecTy::Path(sp) => Some(SpecTy::Path(SpecPath { qself: None, ..sp })),
                    other => Some(other),
                },
                None => if p.segments.len() == 1 {
                    None
                } else {
                    Some(
                        SpecTy::Path(
                            SpecPath { qself: None, leading_colon: p.leading_colon, segments: p.segments.drop_last() },
                        ),
                    )
                },
            }
        },
        _ => None,
    }
}

/// The message given where the type of an `_id` argument names no selector.
pub fn selector_error_message() -> (s: String)
    ensures
        s@ == "arguments with `_id` suffix must use `<Selector>::ID`"@,
{
    String::from_str("arguments with `_id` suffix must use `<Selector>::ID`")
}

/// The selector named by the type of an `_id` argument, if it names one.
pub fn selector_from_handle_id_type(ty: &Ty) -> (r: Option<Ty>)
    ensures
        match r {
            Some(s) => spec_selector(ty@) == Some(s@),
            None => spec_selector(ty@) is None,
        },
{
    let p = match ty {
        Ty::Path(p) => p,
        _ => return None,
    };
    assert(ty@ == SpecTy::Path(p@));
    let n = p.segments.len();
    if n == 0 {
        return None;
    }
    assert(p@.segments.last() == SpecSegment { ident: p.segments@[n - 1].ident@, args: p.segments@[n - 1].args@ });
    if !str_eq(p.segments[n - 1].ident.as_str(), "ID") {
        return None;
    }
    match &p.qself {
        Some(q) => match &*q.ty {
            Ty::Path(sp) => {
                let c = sp.clone();
                assert(c@.segments == sp@.segments);
                assert(c@.leading_colon == sp@.leading_colon);
                let ghost cs = c.segments@;
                let tp = TyPath { qself: None, leading_colon: c.leading_colon, segments: c.segments };
                assert(tp@ == SpecPath { qself: None, leading_colon: sp@.leading_colon, segments: segments_view(cs) });
                let r = Ty::Path(tp);
                assert(r@ == SpecTy::Path(tp@));
                assert(r@ == SpecTy::Path(SpecPath { qself: None, ..sp@ }));
                assert(p@.qself == Some((Box::new(q.ty@), q.position, q.has_as)));
                Some(r)
            },
            other => {
                assert(p@.qself == Some((Box::new(q.ty@), q.position, q.has_as)));
                Some(other.clone())
            },
        },
        None => {
            if n == 1 {
                return None;
            }
            let c = p.clone();
            assert(c@.segments == p@.segments);
            let mut segs = c.segments;
            let ghost before = segs@;
            segs.pop();
            assert(segments_view(segs@) =~= segments_view(before).drop_last());
            let ghost sv = segs@;
            let tp = TyPath { qself: None, leading_colon: p.leading_colon, segments: segs };
            assert(tp@ == SpecPath { qself: None, leading_colon: p.leading_colon, segments: segments_view(sv) });
            let r = Ty::Path(tp);
            assert(r@ == SpecTy::Path(tp@));
            Some(r)
        },
    }
}

// ---------------------------------------------------------------------------
// Where handle id arguments go.

/// A handle id argument to insert into a signature: its name, the selector
/// type whose id it carries, and the position it takes among the arguments.
#[derive(Debug, PartialEq, Eq)]
pub struct HandleIdSpec {
    pub arg_name: String,
    pub selector: Ty,
    pub at: usize,
}

/// The first of the first `k` specs whose position is past the last slot of
/// a signature with `inputs` arguments and the specs' own.
pub open spec fn spec_first_out_of_bounds(specs: Seq<HandleIdSpec>, inputs: int, k: int) -> Option<int>
    decreases k,
{
    if k <= 0 {
        None
    } else {
        match spec_first_out_of_bounds(specs, inputs, k - 1) {
            Some(j) => Some(j),
            None => if specs[k - 1].at >= inputs + specs.len() {
                Some(k - 1)
            } else {
                None
            },
        }
    }
}

proof fn lemma_out_of_bounds_stays(specs: Seq<HandleIdSpec>, inputs: int, k: int, n: int)
    requires
        k <= n,
        spec_first_out_of_bounds(specs, inputs, k) is Some,
    ensures
        spec_first_out_of_bounds(specs, inputs, n) == spec_first_out_of_bounds(specs, inputs, k),
    decreases n - k,
{
    if k < n {
        lemma_out_of_bounds_stays(specs, inputs, k, n - 1);
    }
}

/// Checks that each handle id argument's position is within the signature
/// once they are inserted: below the number of its `inputs` arguments plus
/// the number of specs. Gives the first spec that is not.
pub fn validate_handle_id_positions_for_sig(inputs: usize, specs: &Vec<HandleIdSpec>) -> (r: Result<(), usize>)
    requires
        inputs + specs@.len() <= usize::MAX,
    ensures
        match r {
            Ok(()) => spec_first_out_of_bounds(specs@, inputs as int, specs@.len() as int) is None,
            Err(j) => spec_first_out_of_bounds(specs@, inputs as int, specs@.len() as int) == Some(j as int),
        },
{
    let total = inputs + specs.len();
    let mut k: usize = 0;
    while k < specs.len()
        invariant
            k <= specs@.len(),
            total == inputs + specs@.len(),
            spec_first_out_of_bounds(specs@, inputs as int, k as int) is None,
        decreases specs@.len() - k,
    {
        if specs[k].at >= total {
            proof {
                lemma_out_of_bounds_stays(specs@, inputs as int, k + 1, specs@.len() as int);
            }
            return Err(k);
        }
        k = k + 1;
    }
    Ok(())
}

/// The message for a handle id position out of bounds in a signature with
/// `inputs` arguments and `count` handle id arguments.
pub open spec fn spec_position_message(at: nat, inputs: nat, count: nat) -> Seq<char> {
    "position "@ + crate::text::spec_decimal(at) + " is out of bounds(max: "@ + crate::text::spec_decimal(
        (if inputs + count > 0 {
            inputs + count - 1
        } else {
            0
        }) as nat,
    ) + ")"@
}

/// The message for a handle id position out of bounds.
pub fn position_message(at: usize, inputs: usize, count: usize) -> (s: String)
    requires
        inputs + count <= usize::MAX,
    ensures
        s@ == spec_position_message(at as nat, inputs as nat, count as nat),
{
    let total = inputs + count;
    let max_index = if total > 0 { total - 1 } else { 0 };
    let mut out: Vec<char> = Vec::new();
    crate::text::push_str(&mut out, "position ");
    let a = crate::text::decimal(at);
    crate::text::push_chars(&mut out, &a);
    crate::text::push_str(&mut out, " is out of bounds(max: ");
    let m = crate::text::decimal(max_index);
    crate::text::push_chars(&mut out, &m);
    crate::text::push_str(&mut out, ")");
    crate::text::string_of(&out)
}

/// The first of the first `k` selector keys that names none of the
/// available selectors.
pub open spec fn spec_first_unavailable(available: Seq<Seq<char>>, selectors: Seq<Seq<char>>, k: int) -> Option<int>
    decreases k,
{
    if k <= 0 {
        None
    } else {
        match spec_first_unavailable(available, selectors, k - 1) {
            Some(j) => Some(j),
            None => if available.contains(selectors[k - 1]) {
                None
            } else {
                Some(k - 1)
            },
        }
    }
}

proof fn lemma_unavailable_stays(available: Seq<Seq<char>>, selectors: Seq<Seq<char>>, k: int, n: int)
    requires
        k <= n,
        spec_first_unavailable(available, selectors, k) is Some,
    ensures
        spec_first_unavailable(available, selectors, n) == spec_first_unavailable(available, selectors, k),
    decreases n - k,
{
    if k < n {
        lemma_unavailable_stays(available, selectors, k, n - 1);
    }
}

/// Checks that every selector key that a default handle id needs refers to
/// a handle of the signature; gives the first that does not.
pub fn validate_default_handle_id_selectors(available: &Vec<String>, selectors: &Vec<String>) -> (r: Result<
    (),
    usize,
>)
    ensures
        match r {
            Ok(()) => spec_first_unavailable(
                crate::types::strings_view(available@),
                crate::types::strings_view(selectors@),
                selectors@.len() as int,
            ) is None,
            Err(j) => spec_first_unavailable(
                crate::types::strings_view(available@),
                crate::types::strings_view(selectors@),
                selectors@.len() as int,
            ) == Some(j as int),
        },
{
    let ghost av = crate::types::strings_view(available@);
    let ghost sv = crate::types::strings_view(selectors@);
    let mut k: usize = 0;
    while k < selectors.len()
        invariant
            k <= selectors@.len(),
            av == crate::types::strings_view(available@),
            sv == crate::types::strings_view(selectors@),
            spec_first_unavailable(av, sv, k as int) is None,
        decreases selectors@.len() - k,
    {
        let key = selectors[k].as_str();
        assert(sv[k as int] == key@);
        let mut found = false;
        let mut i: usize = 0;
        while i < available.len()
            invariant
                i <= available@.len(),
                av == crate::types::strings_view(available@),
                found <==> (exists|j: int| 0 <= j < i && av[j] == key@),
            decreases available@.len() - i,
        {
            assert(av[i as int] == available@[i as int]@);
            if str_eq(available[i].as_str(), key) {
                found = true;
            }
            i = i + 1;
        }
        assert(found <==> av.contains(key@));
        if !found {
            proof {
                lemma_unavailable_stays(av, sv, k + 1, sv.len() as int);
            }
            return Err(k);
        }
        k = k + 1;
    }
    Ok(())
}

/// The message for a selector key that refers to no handle.
pub fn unavailable_selector_message(key: &str) -> (s: String)
    ensures
        s@ == "selector `"@ + key@ + "` does not refer to a handle in this signature"@,
{
    let mut out: Vec<char> = Vec::new();
    crate::text::push_str(&mut out, "selector `");
    crate::text::push_str(&mut out, key);
    crate::text::push_str(&mut out, "` does not refer to a handle in this signature");
    crate::text::string_of(&out)
}

// ---------------------------------------------------------------------------
// `#[id(Repr)]`.

/// Why an `#[id(...)]` attribute was refused, with its position.
#[derive(Debug, Clone, Copy, PartialEq, Eq, Structural)]
pub enum IdAttrError {
    /// Not a list holding one type.
    Malformed { attr: usize },
    /// A second `#[id(...)]`.
    Duplicate { attr: usize },
}

impl IdAttrError {
    /// The message of the error.
    pub fn message(&self) -> (s: &'static str)
        ensures
            s@ == match *self {
                IdAttrError::Malformed { .. } => "expected `#[id(repr)]`"@,
                IdAttrError::Duplicate { .. } => "duplicate `#[id(...)]`"@,
            },
    {
        match self {
            IdAttrError::Malformed { .. } => "expected `#[id(repr)]`",
            IdAttrError::Duplicate { .. } => "duplicate `#[id(...)]`",
        }
    }
}

/// The tokens of the type that an `#[id(...)]` attribute holds, given
/// whether `syn` read them as a type (`ok`).
pub open spec fn spec_id_type_of(a: crate::tokens::Attr, ok: bool) -> Option<Seq<SpecTok>> {
    match a.meta {
        crate::tokens::AttrMeta::List(toks) => if ok {
            Some(toks_view(toks@))
        } else {
            None
        },
        _ => None,
    }
}

/// Whether `syn` read the list of the attribute at `i` as a type; refused
/// where nothing was read.
pub open spec fn id_type_ok(types: Seq<bool>, i: int) -> bool {
    0 <= i < types.len() && types[i]
}

/// Whether the readings are ones that `syn` may give: for each attribute
/// that is a list, a possible outcome of reading its rendered tokens as a
/// type; `false` for the others.
pub open spec fn id_types_fit(attrs: Seq<crate::tokens::Attr>, types: Seq<bool>) -> bool {
    &&& types.len() == attrs.len()
    &&& forall|j: int|
        0 <= j < attrs.len() ==> match (#[trigger] attrs[j]).meta {
            crate::tokens::AttrMeta::List(toks) => crate::preprocess::type_outcome(
                crate::mineral::render(toks_view(toks@)),
                types[j],
            ),
            _ => !types[j],
        }
}

/// Asks `syn`, for each attribute that is a list, whether its tokens read
/// as a type; `false` for the others. Each answer is a possible one for the
/// attribute's rendered tokens.
pub fn read_id_types(attrs: &Vec<crate::tokens::Attr>) -> (r: Vec<bool>)
    ensures
        id_types_fit(attrs@, r@),
{
    let mut out: Vec<bool> = Vec::new();
    let mut j: usize = 0;
    while j < attrs.len()
        invariant
            j <= attrs@.len(),
            out@.len() == j,
            forall|x: int|
                0 <= x < j ==> match (#[trigger] attrs@[x]).meta {
                    crate::tokens::AttrMeta::List(toks) => crate::preprocess::type_outcome(
                        crate::mineral::render(toks_view(toks@)),
                        out@[x],
                    ),
                    _ => !out@[x],
                },
        decreases attrs@.len() - j,
    {
        let answer = match &attrs[j].meta {
            crate::tokens::AttrMeta::List(toks) => {
                let text = crate::mineral::render_range(toks, 0, toks.len());
                assert(toks_view(toks@).subrange(0, toks@.len() as int) =~= toks_view(toks@));
                crate::preprocess::syn_type_parses(text.as_str())
            },
            _ => false,
        };
        out.push(answer);
        j = j + 1;
    }
    out
}

/// What the first `n` attributes say of the id representation: the type of
/// the one `#[id(...)]` among them, if any, or the first such attribute that
/// is malformed or comes a second time.
pub open spec fn spec_id_scan(attrs: Seq<crate::tokens::Attr>, types: Seq<bool>, n: int) -> Result<Option<Seq<SpecTok>>, IdAttrError>
    decreases n,
{
    if n <= 0 {
        Ok(None)
    } else {
        match spec_id_scan(attrs, types, n - 1) {
            Err(e) => Err(e),
            Ok(found) => if !crate::tokens::attr_is_ident(attrs[n - 1], "id"@) {
                Ok(found)
            } else {
                match spec_id_type_of(attrs[n - 1], id_type_ok(types, n - 1)) {
                    None => Err(IdAttrError::Malformed { attr: (n - 1) as usize }),
                    Some(t) => if found is Some {
                        Err(IdAttrError::Duplicate { attr: (n - 1) as usize })
                    } else {
                        Ok(Some(t))
                    },
                }
            },
        }
    }
}

proof fn lemma_id_scan_err(attrs: Seq<crate::tokens::Attr>, types: Seq<bool>, k: int, n: int)
    requires
        k <= n,
        spec_id_scan(attrs, types, k) is Err,
    ensures
        spec_id_scan(attrs, types, n) == spec_id_scan(attrs, types, k),
    decreases n - k,
{
    if k < n {
        lemma_id_scan_err(attrs, types, k, n - 1);
    }
}

/// The value of an id attribute result.
pub open spec fn id_result_view(r: Result<Option<Vec<Tok>>, IdAttrError>) -> Result<Option<Seq<SpecTok>>, IdAttrError> {
    match r {
        Ok(Some(t)) => Ok(Some(toks_view(t@))),
        Ok(None) => Ok(None),
        Err(e) => Err(e),
    }
}

/// Removes the `#[id(Repr)]` attribute of a tag-dispatched parameter and
/// gives the tokens of the representation type, asking `syn` whether each
/// attribute's list is a type (see `read_id_types`). Whatever `syn`
/// answered, the outcome is what `parse_handle_id_attr_with` gives for some
/// answers.
pub fn parse_handle_id_attr(attrs: &mut Vec<crate::tokens::Attr>) -> (r: Result<Option<Vec<Tok>>, IdAttrError>)
    ensures
        exists|types: Seq<bool>| id_types_fit(old(attrs)@, types) && id_result_view(r) == #[trigger] spec_id_scan(
            old(attrs)@,
            types,
            old(attrs)@.len() as int,
        ),
        r is Ok ==> final(attrs)@ == crate::ffi_attrs::spec_kept(old(attrs)@, "id"@),
        r is Err ==> final(attrs)@.len() == 0,
{
    let types = read_id_types(attrs);
    let ghost before = attrs@;
    let r = parse_handle_id_attr_with(attrs, &types);
    assert(id_result_view(r) == spec_id_scan(before, types@, before.len() as int));
    r
}

/// Removes the `#[id(Repr)]` attribute of a tag-dispatched parameter and
/// gives the tokens of the representation type, or `None` where there is
/// none, given whether `syn` read each attribute's list as a type. An
/// attribute that does not hold one type, or a second one, is an error, and
/// then no attribute is left; else the others stay in order.
pub fn parse_handle_id_attr_with(attrs: &mut Vec<crate::tokens::Attr>, types: &Vec<bool>) -> (r: Result<
    Option<Vec<Tok>>,
    IdAttrError,
>)
    ensures
        id_result_view(r) == spec_id_scan(old(attrs)@, types@, old(attrs)@.len() as int),
        r is Ok ==> final(attrs)@ == crate::ffi_attrs::spec_kept(old(attrs)@, "id"@),
        r is Err ==> final(attrs)@.len() == 0,
{
    let mut rest: Vec<crate::tokens::Attr> = Vec::new();
    std::mem::swap(&mut rest, attrs);
    let ghost orig = rest@;
    let total = rest.len();
    let mut kept: Vec<crate::tokens::Attr> = Vec::new();
    let mut found: Option<Vec<Tok>> = None;
    let mut i: usize = 0;
    while rest.len() > 0
        invariant
            orig.len() == total,
            orig.len() == i + rest@.len(),
            rest@ == orig.subrange(i as int, orig.len() as int),
            attrs@.len() == 0,
            orig == old(attrs)@,
            kept@ == crate::ffi_attrs::spec_kept_upto(orig, "id"@, i as int),
            spec_id_scan(orig, types@, i as int) == id_result_view(Ok(found)),
        decreases rest@.len(),
    {
        let a = rest.remove(0);
        assert(a == orig[i as int]);
        proof {
            reveal_strlit("id");
        }
        if crate::tokens::attr_path_is(&a, "id") {
            let parsed = match &a.meta {
                crate::tokens::AttrMeta::List(toks) => {
                    if i < types.len() && types[i] {
                        Some(crate::tokens::clone_toks(toks))
                    } else {
                        None
                    }
                },
                _ => None,
            };
            match parsed {
                None => {
                    proof {
                        lemma_id_scan_err(orig, types@, i + 1, orig.len() as int);
                    }
                    return Err(IdAttrError::Malformed { attr: i });
                },
                Some(t) => {
                    if found.is_some() {
                        proof {
                            lemma_id_scan_err(orig, types@, i + 1, orig.len() as int);
                        }
                        return Err(IdAttrError::Duplicate { attr: i });
                    }
                    found = Some(t);
                },
            }
        } else {
            kept.push(a);
        }
        i = i + 1;
        assert(rest@ =~= orig.subrange(i as int, orig.len() as int));
    }
    *attrs = kept;
    Ok(found)
}


// ---------------------------------------------------------------------------
// The module that holds a method's dispatch set.

/// Whether every character is ASCII.
pub open spec fn all_ascii(s: Seq<char>) -> bool {
    forall|i: int| 0 <= i < s.len() ==> (#[trigger] s[i] as u32) < 128
}

/// The ASCII lowercase of a character.
pub open spec fn ascii_lower(c: char) -> char {
    if 'A' <= c && c <= 'Z' {
        ((c as u32) + 32) as char
    } else {
        c
    }
}

/// The Unicode lowercase of a string, as `str::to_lowercase` gives it.
pub uninterp spec fn str_lowercase(s: Seq<char>) -> Seq<char>;

/// Calls `str::to_lowercase`: the string's Unicode lowercase, a function of
/// the string alone; for ASCII text its documentation gives the ASCII
/// lowercase, character for character.
#[verifier::external_body]
fn std_to_lowercase(s: &str) -> (r: String)
    ensures
        r@ == str_lowercase(s@),
        all_ascii(s@) ==> r@ == s@.map_values(|c: char| ascii_lower(c)),
{
    s.to_lowercase()
}

/// The name the dispatch module is derived from: the last segment of a
/// plain path self type, else `dispatch`.
pub open spec fn spec_module_receiver(self_ty: SpecTy) -> Seq<char> {
    match self_ty {
        SpecTy::Path(p) => if p.qself is None && p.segments.len() > 0 {
            p.segments.last().ident
        } else {
            "dispatch"@
        },
        _ => "dispatch"@,
    }
}

/// The name of the module that holds a method's dispatch set: the
/// lowercase of the self type's last segment (or `dispatch`), `_`, and the
/// method's name.
pub fn dispatch_module_name(self_ty: &Ty, method: &str) -> (r: String)
    ensures
        r@ == str_lowercase(spec_module_receiver(self_ty@)) + "_"@ + method@,
        all_ascii(spec_module_receiver(self_ty@)) ==> r@ == spec_module_receiver(self_ty@).map_values(
            |c: char| ascii_lower(c),
        ) + "_"@ + method@,
{
    proof {
        reveal_strlit("dispatch");
        reveal_strlit("_");
    }
    let receiver: String = match self_ty {
        Ty::Path(p) => {
            if p.qself.is_none() && p.segments.len() > 0 {
                let n = p.segments.len();
                assert(self_ty@ == SpecTy::Path(p@));
                assert(p@.segments.last() == crate::types::SpecSegment {
                    ident: p.segments@[n - 1].ident@,
                    args: p.segments@[n - 1].args@,
                });
                p.segments[n - 1].ident.clone()
            } else {
                assert(self_ty@ == SpecTy::Path(p@));
                String::from_str("dispatch")
            }
        },
        _ => String::from_str("dispatch"),
    };
    assert(receiver@ == spec_module_receiver(self_ty@));
    let lower = std_to_lowercase(receiver.as_str());
    let mut out: Vec<char> = crate::text::chars_of(lower.as_str());
    let ghost lv = out@;
    crate::text::push_str(&mut out, "_");
    crate::text::push_str(&mut out, method);
    assert(out@ == lv + "_"@ + method@);
    crate::text::string_of(&out)
}

/// The module of a method's dispatch set is named after the last segment of
/// a plain path self type (`crate::engine::Engine` gives `engine`), in
/// lowercase, then `_` and the method; any other self type gives
/// `dispatch`.
pub proof fn lemma_dispatch_module_receiver(self_ty: Ty)
    ensures
        (match self_ty {
            Ty::Path(p) => p.qself is None && p.segments@.len() > 0,
            _ => false,
        }) ==> spec_module_receiver(self_ty@) == self_ty->Path_0.segments@[self_ty->Path_0.segments@.len() - 1].ident@,
        !(match self_ty {
            Ty::Path(p) => p.qself is None && p.segments@.len() > 0,
            _ => false,
        }) ==> spec_module_receiver(self_ty@) == seq!['d', 'i', 's', 'p', 'a', 't', 'c', 'h'],
{
    reveal_strlit("dispatch");
    match self_ty {
        Ty::Path(p) => {
            assert(self_ty@ == SpecTy::Path(p@));
            if p.qself is None && p.segments@.len() > 0 {
                let n = p.segments@.len();
                assert(p@.segments.len() == n);
                assert(p@.segments[n - 1].ident == p.segments@[n - 1].ident@);
            } else {
                assert("dispatch"@ =~= seq!['d', 'i', 's', 'p', 'a', 't', 'c', 'h']);
            }
        },
        _ => {
            assert("dispatch"@ =~= seq!['d', 'i', 's', 'p', 'a', 't', 'c', 'h']);
        },
    }
}

/// The name `dispatch_module_name` gives for a plain path self type is the
/// lowercase of the path's last segment, `_`, and the method; for an ASCII
/// segment, its ASCII lowercase.
pub proof fn lemma_dispatch_module_name_of_path(p: TyPath, method: Seq<char>)
    requires
        p.qself is None,
        p.segments@.len() > 0,
    ensures
        str_lowercase(spec_module_receiver(Ty::Path(p)@)) + "_"@ + method == str_lowercase(
            p.segments@[p.segments@.len() - 1].ident@,
        ) + "_"@ + method,
        all_ascii(p.segments@[p.segments@.len() - 1].ident@) ==> spec_module_receiver(Ty::Path(p)@).map_values(
            |c: char| ascii_lower(c),
        ) == p.segments@[p.segments@.len() - 1].ident@.map_values(|c: char| ascii_lower(c)),
{
    lemma_dispatch_module_receiver(Ty::Path(p));
}

} // verus!
