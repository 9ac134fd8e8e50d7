//! Replacing an `impl Trait` argument type by the concrete type that crosses
//! the boundary in its place.
use vstd::prelude::*;
use crate::text::str_eq;
use crate::types::{
    Bound, GenericArg, PathArgs, PathSegment, SpecArg, SpecArgs, SpecBound, SpecPath, SpecSegment,
    SpecTy, Ty, TyPath, bound_view, bounds_view, generic_arg_view, generic_args_view,
    path_args_view, path_view, segments_view,
};

verus! {

/// `Vec<t>`.
pub open spec fn spec_vec_of(t: SpecTy) -> SpecTy {
    SpecTy::Path(
        SpecPath {
            qself: None,
            leading_colon: false,
            segments: seq![SpecSegment { ident: "Vec"@, args: SpecArgs::Angle(seq![SpecArg::Type(t)]) }],
        },
    )
}

/// `&t`, with no lifetime written.
pub open spec fn spec_shared_ref(t: SpecTy) -> SpecTy {
    SpecTy::Reference { lifetime: None, mutable: false, elem: Box::new(t) }
}

/// The type an argument of type `t` is taken as: an `impl Trait` type with a
/// bound the rules below apply to becomes the replacement the last such
/// bound gives; any other type stays as it is.
pub open spec fn spec_resolve_impl_trait(t: SpecTy) -> SpecTy
    decreases t, 3int,
{
    match spec_impl_trait_replacement(t) {
        Some(r) => r,
        None => t,
    }
}

/// What replaces an `impl Trait` type, if anything does.
pub open spec fn spec_impl_trait_replacement(t: SpecTy) -> Option<SpecTy>
    decreases t, 2int,
{
    match t {
        SpecTy::ImplTrait { bounds, .. } => spec_last_bound_replacement(bounds, bounds.len() as int),
        _ => None,
    }
}

/// The replacement given by the last of the first `n` bounds that gives one.
pub open spec fn spec_last_bound_replacement(bounds: Seq<SpecBound>, n: int) -> Option<SpecTy>
    decreases bounds, n,
{
    if n <= 0 || n > bounds.len() {
        None
    } else {
        match spec_bound_replacement(bounds[n - 1]) {
            Some(r) => Some(r),
            None => spec_last_bound_replacement(bounds, n - 1),
        }
    }
}

/// What one bound asks for, by the last segment of its trait:
/// `IntoIterator<Item = T>` and `ExactSizeIterator<Item = T>` give `Vec<T>`
/// (with `T` itself resolved), `Into<T>` gives `T`, and `AsRef<T>` gives `&T`;
/// where several arguments qualify the last one counts.
pub open spec fn spec_bound_replacement(b: SpecBound) -> Option<SpecTy>
    decreases b, 0int,
{
    match b {
        SpecBound::Trait { path, .. } => if path.segments.len() == 0 {
            None
        } else {
            let seg = path.segments[path.segments.len() - 1];
            match seg.args {
                SpecArgs::Angle(args) => if seg.ident == "IntoIterator"@ || seg.ident
                    == "ExactSizeIterator"@ {
                    spec_last_item(args, args.len() as int)
                } else if seg.ident == "Into"@ {
                    spec_last_type_arg(args, args.len() as int)
                } else if seg.ident == "AsRef"@ {
                    match spec_last_type_arg(args, args.len() as int) {
                        Some(t) => Some(spec_shared_ref(t)),
                        None => None,
                    }
                } else {
                    None
                },
                _ => None,
            }
        },
        _ => None,
    }
}

/// `Vec<T>` for the last `Item = T` among the first `n` arguments.
pub open spec fn spec_last_item(args: Seq<SpecArg>, n: int) -> Option<SpecTy>
    decreases args, n,
{
    if n <= 0 || n > args.len() {
        None
    } else {
        match args[n - 1] {
            SpecArg::AssocType(name, ty) => if name == "Item"@ {
                Some(spec_vec_of(spec_resolve_impl_trait(ty)))
            } else {
                spec_last_item(args, n - 1)
            },
            _ => spec_last_item(args, n - 1),
        }
    }
}

/// The last type argument among the first `n` arguments.
pub open spec fn spec_last_type_arg(args: Seq<SpecArg>, n: int) -> Option<SpecTy>
    decreases n,
{
    if n <= 0 || n > args.len() {
        None
    } else {
        match args[n - 1] {
            SpecArg::Type(t) => Some(t),
            _ => spec_last_type_arg(args, n - 1),
        }
    }
}

/// Rewrites the type of an argument whose type is `impl Trait` into the type
/// that is passed in its place. Only the type itself is looked at, not the
/// types inside it.
pub struct TypeImplTraitResolver;

impl TypeImplTraitResolver {
    /// Replaces `node` by what it resolves to.
    pub fn visit_type_mut(&mut self, node: &mut Ty)
        ensures
            final(node)@ == spec_resolve_impl_trait(old(node)@),
    {
        match impl_trait_replacement(node) {
            Some(n) => {
                *node = n;
            },
            None => {},
        }
    }
}

fn resolved_copy(t: &Ty) -> (r: Ty)
    ensures
        r@ == spec_resolve_impl_trait(t@),
    decreases t, 3int,
{
    match impl_trait_replacement(t) {
        Some(n) => n,
        None => t.clone(),
    }
}

fn impl_trait_replacement(t: &Ty) -> (r: Option<Ty>)
    ensures
        match r {
            Some(n) => spec_impl_trait_replacement(t@) == Some(n@),
            None => spec_impl_trait_replacement(t@) is None,
        },
    decreases t, 2int,
{
    match t {
        Ty::ImplTrait { bounds, .. } => {
            proof {
                assert(decreases_to!(*t => (*t)->ImplTrait_bounds));
            }
            bounds_replacement(bounds)
        },
        _ => None,
    }
}

fn bounds_replacement(bounds: &Vec<Bound>) -> (r: Option<Ty>)
    ensures
        match r {
            Some(n) => spec_last_bound_replacement(bounds_view(bounds@), bounds@.len() as int)
                == Some(n@),
            None => spec_last_bound_replacement(bounds_view(bounds@), bounds@.len() as int) is None,
        },
    decreases bounds, 1int,
{
    let ghost bv = bounds_view(bounds@);
    let mut i: usize = bounds.len();
    while i > 0
        invariant
            i <= bounds.len(),
            bv == bounds_view(bounds@),
            spec_last_bound_replacement(bv, bounds@.len() as int) == spec_last_bound_replacement(
                bv,
                i as int,
            ),
        decreases i,
    {
        i = i - 1;
        proof {
            assert(decreases_to!(*bounds => bounds@));
            assert(decreases_to!(bounds@ => bounds@[i as int]));
            assert(bv[i as int] == bound_view(bounds@[i as int]));
        }
        match bound_replacement(&bounds[i]) {
            Some(n) => {
                return Some(n);
            },
            None => {},
        }
    }
    None
}

fn bound_replacement(b: &Bound) -> (r: Option<Ty>)
    ensures
        match r {
            Some(n) => spec_bound_replacement(b@) == Some(n@),
            None => spec_bound_replacement(b@) is None,
        },
    decreases b, 0int,
{
    match b {
        Bound::Trait { path, .. } => {
            let n = path.segments.len();
            if n == 0 {
                return None;
            }
            let seg = &path.segments[n - 1];
            proof {
                assert(segments_view(path.segments@)[n - 1] == SpecSegment {
                    ident: seg.ident@,
                    args: path_args_view(seg.args),
                });
            }
            match &seg.args {
                PathArgs::Angle(args) => {
                    if str_eq(seg.ident.as_str(), "IntoIterator") || str_eq(
                        seg.ident.as_str(),
                        "ExactSizeIterator",
                    ) {
                        proof {
                            assert(decreases_to!(*b => (*b)->path));
                            assert(decreases_to!((*b)->path => (*b)->path.segments));
                            assert(decreases_to!((*b)->path.segments => (*b)->path.segments@));
                            assert(decreases_to!((*b)->path.segments@ => (*b)->path.segments@[n - 1]));
                            assert(decreases_to!((*b)->path.segments@[n - 1] => (*b)->path.segments@[n - 1].args));
                            assert(decreases_to!(seg.args => (seg.args)->Angle_0));
                        }
                        last_item_replacement(args)
                    } else if str_eq(seg.ident.as_str(), "Into") {
                        match last_type_arg(args) {
                            Some(t) => Some(t.clone()),
                            None => None,
                        }
                    } else if str_eq(seg.ident.as_str(), "AsRef") {
                        match last_type_arg(args) {
                            Some(t) => {
                                let c = t.clone();
                                let r = Ty::Reference { lifetime: None, mutable: false, elem: Box::new(c) };
                                assert(r@ == spec_shared_ref(c@));
                                Some(r)
                            },
                            None => None,
                        }
                    } else {
                        None
                    }
                },
                _ => None,
            }
        },
        _ => None,
    }
}

fn last_item_replacement(args: &Vec<GenericArg>) -> (r: Option<Ty>)
    ensures
        match r {
            Some(n) => spec_last_item(generic_args_view(args@), args@.len() as int) == Some(n@),
            None => spec_last_item(generic_args_view(args@), args@.len() as int) is None,
        },
    decreases args, 1int,
{
    let ghost av = generic_args_view(args@);
    let mut k: usize = args.len();
    while k > 0
        invariant
            k <= args.len(),
            av == generic_args_view(args@),
            spec_last_item(av, args@.len() as int) == spec_last_item(av, k as int),
        decreases k,
    {
        k = k - 1;
        assert(av[k as int] == generic_arg_view(args@[k as int]));
        match &args[k] {
            GenericArg::AssocType(name, ty) => {
                if str_eq(name.as_str(), "Item") {
                    proof {
                        assert(decreases_to!(*args => args@));
                        assert(decreases_to!(args@ => args@[k as int]));
                        assert(decreases_to!(args@[k as int] => (args@[k as int])->AssocType_1));
                    }
                    let inner = resolved_copy(ty);
                    return Some(vec_of(inner));
                }
            },
            _ => {},
        }
    }
    None
}

fn last_type_arg(args: &Vec<GenericArg>) -> (r: Option<&Ty>)
    ensures
        match r {
            Some(t) => spec_last_type_arg(generic_args_view(args@), args@.len() as int) == Some(t@),
            None => spec_last_type_arg(generic_args_view(args@), args@.len() as int) is None,
        },
{
    let ghost av = generic_args_view(args@);
    let mut k: usize = args.len();
    while k > 0
        invariant
            k <= args.len(),
            av == generic_args_view(args@),
            spec_last_type_arg(av, args@.len() as int) == spec_last_type_arg(av, k as int),
        decreases k,
    {
        k = k - 1;
        assert(av[k as int] == generic_arg_view(args@[k as int]));
        match &args[k] {
            GenericArg::Type(t) => {
                return Some(t);
            },
            _ => {},
        }
    }
    None
}

fn type_arg_list(t: Ty) -> (r: Vec<GenericArg>)
    ensures
        generic_args_view(r@) == seq![SpecArg::Type(t@)],
{
    let ghost tv = t@;
    let args: Vec<GenericArg> = vec![GenericArg::Type(t)];
    assert(args@ == seq![GenericArg::Type(t)]);
    assert(generic_args_view(args@) =~= seq![SpecArg::Type(tv)]);
    args
}

fn vec_of(t: Ty) -> (r: Ty)
    ensures
        r@ == spec_vec_of(t@),
{
    let ghost tv = t@;
    let args = type_arg_list(t);
    let name = String::from_str("Vec");
    proof {
        reveal_strlit("Vec");
    }
    let seg = PathSegment { ident: name, args: PathArgs::Angle(args) };
    assert(path_args_view(seg.args) == SpecArgs::Angle(seq![SpecArg::Type(tv)]));
    let segs: Vec<PathSegment> = vec![seg];
    assert(segs@ == seq![seg]);
    assert(segments_view(segs@) =~= seq![
        SpecSegment { ident: "Vec"@, args: SpecArgs::Angle(seq![SpecArg::Type(tv)]) },
    ]);
    let p = TyPath { qself: None, leading_colon: false, segments: segs };
    assert(path_view(p) == SpecPath { qself: None, leading_colon: false, segments: segments_view(segs@) });
    let r = Ty::Path(p);
    assert(r@ == SpecTy::Path(path_view(p)));
    r
}

} // verus!
