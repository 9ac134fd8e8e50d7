//! Generic parameter lists and where clauses, and how the generics of an
//! impl and of its methods are combined.
use vstd::prelude::*;
use crate::signature::{
    GenericParam, SpecGenericParam, SpecWherePredicate, WherePredicate, generics_view, predicates_view,
};
use crate::types::{clone_bounds, clone_strings, clone_ty, strings_view};

verus! {

/// Generic parameters and an optional where clause.
#[derive(Debug, PartialEq, Eq)]
pub struct Generics {
    pub params: Vec<GenericParam>,
    pub where_clause: Option<Vec<WherePredicate>>,
}

/// The value of generics.
pub struct SpecGenerics {
    pub params: Seq<SpecGenericParam>,
    pub where_clause: Option<Seq<SpecWherePredicate>>,
}

impl View for Generics {
    type V = SpecGenerics;

    open spec fn view(&self) -> SpecGenerics {
        SpecGenerics {
            params: generics_view(self.params@),
            where_clause: match self.where_clause {
                Some(w) => Some(predicates_view(w@)),
                None => None,
            },
        }
    }
}

// ---------------------------------------------------------------------------
// Merging.

/// The generics of a function with those of its impl appended: the impl's
/// parameters after the function's, and the impl's where predicates after
/// the function's (the function gets a where clause where the impl has one).
pub open spec fn spec_merge(impl_generics: SpecGenerics, fn_generics: SpecGenerics) -> SpecGenerics {
    SpecGenerics {
        params: fn_generics.params + impl_generics.params,
        where_clause: match impl_generics.where_clause {
            Some(w) => Some(
                match fn_generics.where_clause {
                    Some(f) => f + w,
                    None => w,
                },
            ),
            None => fn_generics.where_clause,
        },
    }
}

/// Appends the impl's generic parameters and where predicates to the
/// function's.
pub fn merge_generics(impl_generics: Generics, fn_generics: &mut Generics)
    ensures
        final(fn_generics)@ == spec_merge(impl_generics@, old(fn_generics)@),
{
    let Generics { params, where_clause } = impl_generics;
    let ghost ip = params@;
    let ghost fp = fn_generics.params@;
    let mut params = params;
    fn_generics.params.append(&mut params);
    assert(generics_view(fn_generics.params@) =~= generics_view(fp) + generics_view(ip));
    match where_clause {
        Some(w) => {
            let ghost wp = w@;
            let mut w = w;
            let mut taken: Option<Vec<WherePredicate>> = None;
            std::mem::swap(&mut taken, &mut fn_generics.where_clause);
            let mut merged = match taken {
                Some(f) => f,
                None => Vec::new(),
            };
            let ghost mp = merged@;
            merged.append(&mut w);
            assert(predicates_view(merged@) =~= predicates_view(mp) + predicates_view(wp));
            fn_generics.where_clause = Some(merged);
        },
        None => {},
    }
}

/// The lifetime parameters among the first `n`, in order.
pub open spec fn spec_lifetimes(s: Seq<SpecGenericParam>, n: int) -> Seq<SpecGenericParam>
    decreases n,
{
    if n <= 0 || n > s.len() {
        Seq::empty()
    } else if s[n - 1] is Lifetime {
        spec_lifetimes(s, n - 1).push(s[n - 1])
    } else {
        spec_lifetimes(s, n - 1)
    }
}

/// The type and const parameters among the first `n`, in order.
pub open spec fn spec_non_lifetimes(s: Seq<SpecGenericParam>, n: int) -> Seq<SpecGenericParam>
    decreases n,
{
    if n <= 0 || n > s.len() {
        Seq::empty()
    } else if s[n - 1] is Lifetime {
        spec_non_lifetimes(s, n - 1)
    } else {
        spec_non_lifetimes(s, n - 1).push(s[n - 1])
    }
}

/// The lifetime parameters of a list, in order.
pub open spec fn lifetimes_of(s: Seq<SpecGenericParam>) -> Seq<SpecGenericParam> {
    spec_lifetimes(s, s.len() as int)
}

/// The type and const parameters of a list, in order.
pub open spec fn non_lifetimes_of(s: Seq<SpecGenericParam>) -> Seq<SpecGenericParam> {
    spec_non_lifetimes(s, s.len() as int)
}

/// The generics of a function declared without a receiver keep only the
/// impl's lifetime parameters, and not its where clause; with a receiver,
/// all of them.
pub open spec fn spec_raw_decl_impl_generics(impl_generics: SpecGenerics, has_receiver: bool) -> SpecGenerics {
    if has_receiver {
        impl_generics
    } else {
        SpecGenerics { params: lifetimes_of(impl_generics.params), where_clause: None }
    }
}

/// Keeps the lifetime parameters and drops the type and const parameters.
pub fn strip_dispatch_params(generics: &mut Generics)
    ensures
        final(generics)@.params == lifetimes_of(old(generics)@.params),
        final(generics)@.where_clause == old(generics)@.where_clause,
{
    let mut taken: Vec<GenericParam> = Vec::new();
    std::mem::swap(&mut taken, &mut generics.params);
    let (lifetimes, _others) = partition_lifetimes(taken);
    generics.params = lifetimes;
}

/// Splits parameters into the lifetime parameters and the others, each in
/// order.
fn partition_lifetimes(v: Vec<GenericParam>) -> (r: (Vec<GenericParam>, Vec<GenericParam>))
    ensures
        generics_view(r.0@) == lifetimes_of(generics_view(v@)),
        generics_view(r.1@) == non_lifetimes_of(generics_view(v@)),
{
    let ghost v0 = v@;
    let ghost sv = generics_view(v@);
    let n = v.len();
    let mut v = v;
    let mut lifetimes: Vec<GenericParam> = Vec::new();
    let mut others: Vec<GenericParam> = Vec::new();
    let mut k: usize = 0;
    while k < n
        invariant
            k <= n,
            n == v0.len(),
            sv == generics_view(v0),
            v@ == v0.subrange(k as int, n as int),
            generics_view(lifetimes@) == spec_lifetimes(sv, k as int),
            generics_view(others@) == spec_non_lifetimes(sv, k as int),
        decreases n - k,
    {
        let ghost l0 = lifetimes@;
        let ghost o0 = others@;
        let p = v.remove(0);
        assert(p == v0[k as int]);
        assert(sv[k as int] == p@);
        if matches!(p, GenericParam::Lifetime { .. }) {
            lifetimes.push(p);
            assert(generics_view(lifetimes@) =~= generics_view(l0).push(sv[k as int]));
        } else {
            others.push(p);
            assert(generics_view(others@) =~= generics_view(o0).push(sv[k as int]));
        }
        k = k + 1;
        assert(v@ =~= v0.subrange(k as int, n as int));
    }
    (lifetimes, others)
}

/// Appends the generics of an impl to those of a function declared in it:
/// where the function has no receiver, only the impl's lifetime parameters,
/// and not its where clause.
pub fn merge_impl_generics_for_raw_decl(impl_generics: Generics, has_receiver: bool, fn_generics: &mut Generics)
    ensures
        final(fn_generics)@ == spec_merge(
            spec_raw_decl_impl_generics(impl_generics@, has_receiver),
            old(fn_generics)@,
        ),
{
    if has_receiver {
        merge_generics(impl_generics, fn_generics);
    } else {
        let Generics { params, .. } = impl_generics;
        let (lifetimes, _others) = partition_lifetimes(params);
        merge_generics(Generics { params: lifetimes, where_clause: None }, fn_generics);
    }
}

// ---------------------------------------------------------------------------
// Cloning.

fn clone_param(p: &GenericParam) -> (r: GenericParam)
    ensures
        r@ == p@,
{
    match p {
        GenericParam::Lifetime { name, outlives } => {
            let o = clone_strings(outlives);
            GenericParam::Lifetime { name: name.clone(), outlives: o }
        },
        GenericParam::Type { name, bounds } => {
            let b = clone_bounds(bounds);
            assert(crate::types::bounds_view(b@) =~= crate::types::bounds_view(bounds@));
            GenericParam::Type { name: name.clone(), bounds: b }
        },
        GenericParam::Const { name, ty } => GenericParam::Const { name: name.clone(), ty: clone_ty(ty) },
    }
}

fn clone_predicate(p: &WherePredicate) -> (r: WherePredicate)
    ensures
        r@ == p@,
{
    match p {
        WherePredicate::Type { ty, bounds } => {
            let b = clone_bounds(bounds);
            assert(crate::types::bounds_view(b@) =~= crate::types::bounds_view(bounds@));
            WherePredicate::Type { ty: clone_ty(ty), bounds: b }
        },
        WherePredicate::Lifetime { lifetime, outlives } => {
            let o = clone_strings(outlives);
            WherePredicate::Lifetime { lifetime: lifetime.clone(), outlives: o }
        },
    }
}

fn clone_params(v: &Vec<GenericParam>) -> (r: Vec<GenericParam>)
    ensures
        generics_view(r@) == generics_view(v@),
{
    let mut out: Vec<GenericParam> = Vec::new();
    let mut i: usize = 0;
    while i < v.len()
        invariant
            i <= v@.len(),
            generics_view(out@) == generics_view(v@.subrange(0, i as int)),
        decreases v@.len() - i,
    {
        let ghost o0 = out@;
        out.push(clone_param(&v[i]));
        assert(generics_view(out@) =~= generics_view(o0).push(v@[i as int]@));
        i = i + 1;
        assert(generics_view(out@) =~= generics_view(v@.subrange(0, i as int)));
    }
    assert(v@.subrange(0, v@.len() as int) =~= v@);
    out
}

fn clone_predicates(v: &Vec<WherePredicate>) -> (r: Vec<WherePredicate>)
    ensures
        predicates_view(r@) == predicates_view(v@),
{
    let mut out: Vec<WherePredicate> = Vec::new();
    let mut i: usize = 0;
    while i < v.len()
        invariant
            i <= v@.len(),
            predicates_view(out@) == predicates_view(v@.subrange(0, i as int)),
        decreases v@.len() - i,
    {
        let ghost o0 = out@;
        out.push(clone_predicate(&v[i]));
        assert(predicates_view(out@) =~= predicates_view(o0).push(v@[i as int]@));
        i = i + 1;
        assert(predicates_view(out@) =~= predicates_view(v@.subrange(0, i as int)));
    }
    assert(v@.subrange(0, v@.len() as int) =~= v@);
    out
}

fn clone_generics(g: &Generics) -> (r: Generics)
    ensures
        r@ == g@,
{
    let params = clone_params(&g.params);
    let where_clause = match &g.where_clause {
        Some(w) => Some(clone_predicates(w)),
        None => None,
    };
    Generics { params, where_clause }
}

// ---------------------------------------------------------------------------
// Combining the generics of an impl and of a dispatched method.

/// The generics of the machinery generated for a dispatched method: the
/// impl's generics (none where there is no impl) merged with the method's,
/// then the lifetime parameters moved before the others.
pub open spec fn spec_combine(impl_generics: Option<SpecGenerics>, method_generics: SpecGenerics) -> SpecGenerics {
    let base = match impl_generics {
        Some(g) => g,
        None => SpecGenerics { params: Seq::empty(), where_clause: None },
    };
    let merged = spec_merge(method_generics, base);
    SpecGenerics {
        params: lifetimes_of(merged.params) + non_lifetimes_of(merged.params),
        where_clause: merged.where_clause,
    }
}

/// The value of optional generics.
pub open spec fn opt_generics_view(g: Option<&Generics>) -> Option<SpecGenerics> {
    match g {
        Some(g) => Some(g@),
        None => None,
    }
}

/// Flattens the generics of an impl and of one of its methods into one
/// list for the generated dispatch machinery. Rust requires lifetime
/// parameters before type and const parameters; within each kind the impl's
/// come before the method's, each in the order declared.
pub fn combine_dispatch_generics(impl_generics: Option<&Generics>, method_generics: &Generics) -> (r: Generics)
    ensures
        r@ == spec_combine(opt_generics_view(impl_generics), method_generics@),
{
    let mut combined = match impl_generics {
        Some(g) => clone_generics(g),
        None => Generics { params: Vec::new(), where_clause: None },
    };
    assert(combined@.params =~= match opt_generics_view(impl_generics) {
        Some(g) => g.params,
        None => Seq::<SpecGenericParam>::empty(),
    });
    merge_generics(clone_generics(method_generics), &mut combined);
    let Generics { params, where_clause } = combined;
    let (mut lifetimes, mut others) = partition_lifetimes(params);
    let ghost l0 = lifetimes@;
    let ghost o0 = others@;
    lifetimes.append(&mut others);
    assert(generics_view(lifetimes@) =~= generics_view(l0) + generics_view(o0));
    Generics { params: lifetimes, where_clause }
}

// ---------------------------------------------------------------------------
// Laws of the ordering.

proof fn lemma_lifetimes_prefix(a: Seq<SpecGenericParam>, b: Seq<SpecGenericParam>, k: int)
    requires
        0 <= k <= b.len(),
    ensures
        spec_lifetimes(a + b, a.len() + k) == lifetimes_of(a) + spec_lifetimes(b, k),
        spec_non_lifetimes(a + b, a.len() + k) == non_lifetimes_of(a) + spec_non_lifetimes(b, k),
    decreases k,
{
    if k == 0 {
        lemma_lifetimes_same_prefix(a, a + b, a.len() as int);
        assert(spec_lifetimes(b, 0) =~= Seq::<SpecGenericParam>::empty());
        assert(lifetimes_of(a) + spec_lifetimes(b, 0) =~= lifetimes_of(a));
        assert(non_lifetimes_of(a) + spec_non_lifetimes(b, 0) =~= non_lifetimes_of(a));
    } else {
        lemma_lifetimes_prefix(a, b, k - 1);
        assert((a + b)[a.len() + k - 1] == b[k - 1]);
        assert(lifetimes_of(a) + spec_lifetimes(b, k - 1).push(b[k - 1]) =~= (lifetimes_of(a)
            + spec_lifetimes(b, k - 1)).push(b[k - 1]));
        assert(non_lifetimes_of(a) + spec_non_lifetimes(b, k - 1).push(b[k - 1]) =~= (non_lifetimes_of(
            a,
        ) + spec_non_lifetimes(b, k - 1)).push(b[k - 1]));
    }
}

/// The first `n` parameters of two lists that agree on them are split the
/// same way.
proof fn lemma_lifetimes_same_prefix(a: Seq<SpecGenericParam>, c: Seq<SpecGenericParam>, n: int)
    requires
        0 <= n <= a.len(),
        n <= c.len(),
        forall|i: int| 0 <= i < n ==> a[i] == c[i],
    ensures
        spec_lifetimes(a, n) == spec_lifetimes(c, n),
        spec_non_lifetimes(a, n) == spec_non_lifetimes(c, n),
    decreases n,
{
    if n > 0 {
        lemma_lifetimes_same_prefix(a, c, n - 1);
    }
}

/// Splitting a concatenation splits each part.
proof fn lemma_lifetimes_concat(a: Seq<SpecGenericParam>, b: Seq<SpecGenericParam>)
    ensures
        lifetimes_of(a + b) == lifetimes_of(a) + lifetimes_of(b),
        non_lifetimes_of(a + b) == non_lifetimes_of(a) + non_lifetimes_of(b),
{
    lemma_lifetimes_prefix(a, b, b.len() as int);
}

/// What each part of the split holds, and that the parts together are as
/// long as the list.
proof fn lemma_lifetimes_kinds(s: Seq<SpecGenericParam>, n: int)
    requires
        0 <= n <= s.len(),
    ensures
        forall|i: int| 0 <= i < spec_lifetimes(s, n).len() ==> (#[trigger] spec_lifetimes(s, n)[i]) is Lifetime,
        forall|i: int| 0 <= i < spec_non_lifetimes(s, n).len() ==> !((#[trigger] spec_non_lifetimes(s, n)[i]) is Lifetime),
        spec_lifetimes(s, n).len() + spec_non_lifetimes(s, n).len() == n,
    decreases n,
{
    if n > 0 {
        lemma_lifetimes_kinds(s, n - 1);
    }
}

/// A list of lifetime parameters only is its own lifetime part; one without
/// them has an empty lifetime part.
proof fn lemma_lifetimes_pure(s: Seq<SpecGenericParam>, n: int)
    requires
        0 <= n <= s.len(),
    ensures
        (forall|i: int| 0 <= i < s.len() ==> (#[trigger] s[i]) is Lifetime) ==> spec_lifetimes(s, n)
            == s.subrange(0, n) && spec_non_lifetimes(s, n).len() == 0,
        (forall|i: int| 0 <= i < s.len() ==> !((#[trigger] s[i]) is Lifetime)) ==> spec_non_lifetimes(s, n)
            == s.subrange(0, n) && spec_lifetimes(s, n).len() == 0,
    decreases n,
{
    if n > 0 {
        lemma_lifetimes_pure(s, n - 1);
        assert(s.subrange(0, n - 1).push(s[n - 1]) =~= s.subrange(0, n));
    } else {
        assert(s.subrange(0, 0) =~= Seq::<SpecGenericParam>::empty());
    }
}

/// The parameters that the impl contributes.
pub open spec fn impl_params(impl_generics: Option<SpecGenerics>) -> Seq<SpecGenericParam> {
    match impl_generics {
        Some(g) => g.params,
        None => Seq::empty(),
    }
}

/// Combining the generics of an impl and a method puts every lifetime
/// parameter before every type or const parameter; the lifetime parameters
/// are the impl's and then the method's, each in declared order, and so are
/// the type and const parameters; no parameter is lost or added.
pub proof fn lemma_combine_orders_parameters(impl_generics: Option<SpecGenerics>, method_generics: SpecGenerics)
    ensures
        ({
            let r = spec_combine(impl_generics, method_generics).params;
            let ip = impl_params(impl_generics);
            let mp = method_generics.params;
            &&& forall|i: int, j: int| 0 <= i < j < r.len() && (#[trigger] r[j]) is Lifetime ==> (#[trigger] r[i]) is Lifetime
            &&& lifetimes_of(r) == lifetimes_of(ip) + lifetimes_of(mp)
            &&& non_lifetimes_of(r) == non_lifetimes_of(ip) + non_lifetimes_of(mp)
            &&& r.len() == ip.len() + mp.len()
        }),
{
    let ip = impl_params(impl_generics);
    let mp = method_generics.params;
    let all = ip + mp;
    let base = match impl_generics {
        Some(g) => g,
        None => SpecGenerics { params: Seq::empty(), where_clause: None },
    };
    assert(spec_merge(method_generics, base).params == all);
    let l = lifetimes_of(all);
    let o = non_lifetimes_of(all);
    let r = spec_combine(impl_generics, method_generics).params;
    assert(r == l + o);
    lemma_lifetimes_kinds(all, all.len() as int);
    lemma_lifetimes_concat(ip, mp);
    lemma_lifetimes_concat(l, o);
    lemma_lifetimes_pure(l, l.len() as int);
    lemma_lifetimes_pure(o, o.len() as int);
    assert(l.subrange(0, l.len() as int) =~= l);
    assert(o.subrange(0, o.len() as int) =~= o);
    assert(lifetimes_of(r) =~= l);
    assert(non_lifetimes_of(r) =~= o);
    assert forall|i: int, j: int| 0 <= i < j < r.len() && (#[trigger] r[j]) is Lifetime implies (#[trigger] r[i]) is Lifetime by {
        if j >= l.len() {
            assert(r[j] == o[j - l.len()]);
        }
        assert(r[i] == l[i]);
    }
}


/// The argument that names a generic parameter: the lifetime, the type
/// parameter as a path, or the const parameter by its name.
pub open spec fn spec_param_arg(p: SpecGenericParam) -> crate::types::SpecArg {
    match p {
        SpecGenericParam::Lifetime { name, .. } => crate::types::SpecArg::Lifetime(name),
        SpecGenericParam::Type { name, .. } => crate::types::SpecArg::Type(
            crate::types::SpecTy::Path(
                crate::types::SpecPath {
                    qself: None,
                    leading_colon: false,
                    segments: seq![crate::types::SpecSegment { ident: name, args: crate::types::SpecArgs::Bare }],
                },
            ),
        ),
        SpecGenericParam::Const { name, .. } => crate::types::SpecArg::Const(name),
    }
}

/// The arguments of the dispatch set: each generic parameter named, in the
/// order they are declared.
pub fn dispatch_trait_args(params: &Vec<GenericParam>) -> (r: Vec<crate::types::GenericArg>)
    ensures
        r@.len() == params@.len(),
        forall|i: int| 0 <= i < params@.len() ==> #[trigger] r@[i]@ == spec_param_arg(params@[i]@),
{
    let mut out: Vec<crate::types::GenericArg> = Vec::new();
    let mut i: usize = 0;
    while i < params.len()
        invariant
            i <= params@.len(),
            out@.len() == i,
            forall|j: int| 0 <= j < i ==> #[trigger] out@[j]@ == spec_param_arg(params@[j]@),
        decreases params@.len() - i,
    {
        let arg = match &params[i] {
            GenericParam::Lifetime { name, .. } => crate::types::GenericArg::Lifetime(name.clone()),
            GenericParam::Type { name, .. } => {
                let segments = vec![crate::types::PathSegment { ident: name.clone(), args: crate::types::PathArgs::Bare }];
                assert(crate::types::segments_view(segments@) =~= seq![
                    crate::types::SpecSegment { ident: name@, args: crate::types::SpecArgs::Bare },
                ]);
                let p = crate::types::TyPath { qself: None, leading_colon: false, segments };
                let t = crate::types::Ty::Path(p);
                assert(t@ == crate::types::SpecTy::Path(crate::types::path_view(p)));
                crate::types::GenericArg::Type(t)
            },
            GenericParam::Const { name, .. } => crate::types::GenericArg::Const(name.clone()),
        };
        out.push(arg);
        i = i + 1;
    }
    out
}
} // verus!
