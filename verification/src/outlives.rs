//! The outlives bounds that a signature's types imply, written out as where
//! predicates: `T: 'a` for every `&'a T`, and `'b: 'a` for a lifetime `'b`
//! written inside a `&'a` reference.
use vstd::prelude::*;
use crate::order::{
    insert_sorted, lemma_sorted_unique, str_lt, strictly_sorted,
};
use crate::signature::{
    FnInput, FnSig, SpecFnInput, SpecSig, SpecWherePredicate, WherePredicate, inputs_view,
    predicates_view,
};
use crate::text::str_eq;
use crate::types::{
    Bound, GenericArg, PathArgs, PathSegment, SpecArg, SpecArgs, SpecBound, SpecSegment, SpecTy, Ty,
    bounds_view, clone_strings, generic_args_view, segments_view, strings_view, tys_view,
};

verus! {

/// What the walk over the types has found: each `&'a T` as the pair of `T`
/// and `'a`, and each lifetime written, with the lifetimes of the references
/// it stands inside, outermost first.
pub struct SpecCollected {
    pub implied: Seq<(SpecTy, Seq<char>)>,
    pub events: Seq<(Seq<char>, Seq<Seq<char>>)>,
}

/// Nothing found yet.
pub open spec fn spec_collected_start() -> SpecCollected {
    SpecCollected { implied: Seq::empty(), events: Seq::empty() }
}

/// Notes the lifetime `l`, written inside references to `parents`.
pub open spec fn spec_note(l: Seq<char>, parents: Seq<Seq<char>>, acc: SpecCollected) -> SpecCollected {
    SpecCollected { events: acc.events.push((l, parents)), ..acc }
}

/// The lifetimes of a `for<...>` binder, the first `n` of them.
pub open spec fn spec_collect_binder(
    s: Seq<Seq<char>>,
    n: int,
    parents: Seq<Seq<char>>,
    acc: SpecCollected,
) -> SpecCollected
    decreases n,
{
    if n <= 0 || n > s.len() {
        acc
    } else {
        spec_note(s[n - 1], parents, spec_collect_binder(s, n - 1, parents, acc))
    }
}

/// Walks a type. A path with a qualified self type is not looked into, nor
/// are the parameters of function pointers and of `Fn(...)` sugar.
pub open spec fn spec_collect_ty(t: SpecTy, parents: Seq<Seq<char>>, acc: SpecCollected) -> SpecCollected
    decreases t, 0int,
{
    match t {
        SpecTy::Path(p) => if p.qself is Some {
            acc
        } else {
            spec_collect_segments(p.segments, p.segments.len() as int, parents, acc)
        },
        SpecTy::Reference { lifetime, elem, .. } => match lifetime {
            Some(l) => spec_collect_ty(
                *elem,
                parents.push(l),
                SpecCollected {
                    implied: acc.implied.push((*elem, l)),
                    events: acc.events.push((l, parents)),
                },
            ),
            None => spec_collect_ty(*elem, parents, acc),
        },
        SpecTy::Ptr { elem, .. } => spec_collect_ty(*elem, parents, acc),
        SpecTy::Slice(elem) => spec_collect_ty(*elem, parents, acc),
        SpecTy::Array { elem, .. } => spec_collect_ty(*elem, parents, acc),
        SpecTy::Paren { elem, .. } => spec_collect_ty(*elem, parents, acc),
        SpecTy::Group { elem, .. } => spec_collect_ty(*elem, parents, acc),
        SpecTy::Tuple(elems) => spec_collect_tys(elems, elems.len() as int, parents, acc),
        SpecTy::FnPtr { binder, output, .. } => {
            let acc1 = spec_collect_binder(binder, binder.len() as int, parents, acc);
            match output {
                Some(o) => spec_collect_ty(*o, parents, acc1),
                None => acc1,
            }
        },
        SpecTy::ImplTrait { bounds, .. } => spec_collect_bounds(
            bounds,
            bounds.len() as int,
            parents,
            acc,
        ),
        SpecTy::TraitObject { bounds, .. } => spec_collect_bounds(
            bounds,
            bounds.len() as int,
            parents,
            acc,
        ),
        _ => acc,
    }
}

/// The first `n` types, in order.
pub open spec fn spec_collect_tys(
    s: Seq<SpecTy>,
    n: int,
    parents: Seq<Seq<char>>,
    acc: SpecCollected,
) -> SpecCollected
    decreases s, n,
{
    if n <= 0 || n > s.len() {
        acc
    } else {
        spec_collect_ty(s[n - 1], parents, spec_collect_tys(s, n - 1, parents, acc))
    }
}

/// The arguments of the first `n` segments of a path.
pub open spec fn spec_collect_segments(
    s: Seq<SpecSegment>,
    n: int,
    parents: Seq<Seq<char>>,
    acc: SpecCollected,
) -> SpecCollected
    decreases s, n,
{
    if n <= 0 || n > s.len() {
        acc
    } else {
        spec_collect_args(s[n - 1].args, parents, spec_collect_segments(s, n - 1, parents, acc))
    }
}

/// A segment's arguments; of `Fn(...) -> R` sugar only `R`.
pub open spec fn spec_collect_args(a: SpecArgs, parents: Seq<Seq<char>>, acc: SpecCollected) -> SpecCollected
    decreases a, 0int,
{
    match a {
        SpecArgs::Bare => acc,
        SpecArgs::Angle(args) => spec_collect_arg_list(args, args.len() as int, parents, acc),
        SpecArgs::Parenthesized(_, output) => match output {
            Some(o) => spec_collect_ty(*o, parents, acc),
            None => acc,
        },
    }
}

/// The first `n` generic arguments.
pub open spec fn spec_collect_arg_list(
    s: Seq<SpecArg>,
    n: int,
    parents: Seq<Seq<char>>,
    acc: SpecCollected,
) -> SpecCollected
    decreases s, n,
{
    if n <= 0 || n > s.len() {
        acc
    } else {
        spec_collect_arg(s[n - 1], parents, spec_collect_arg_list(s, n - 1, parents, acc))
    }
}

/// One generic argument.
pub open spec fn spec_collect_arg(a: SpecArg, parents: Seq<Seq<char>>, acc: SpecCollected) -> SpecCollected
    decreases a, 0int,
{
    match a {
        SpecArg::Lifetime(l) => spec_note(l, parents, acc),
        SpecArg::Type(t) => spec_collect_ty(t, parents, acc),
        SpecArg::AssocType(_, t) => spec_collect_ty(t, parents, acc),
        SpecArg::Constraint(_, bounds) => spec_collect_bounds(
            bounds,
            bounds.len() as int,
            parents,
            acc,
        ),
        _ => acc,
    }
}

/// The first `n` bounds.
pub open spec fn spec_collect_bounds(
    s: Seq<SpecBound>,
    n: int,
    parents: Seq<Seq<char>>,
    acc: SpecCollected,
) -> SpecCollected
    decreases s, n,
{
    if n <= 0 || n > s.len() {
        acc
    } else {
        spec_collect_bound(s[n - 1], parents, spec_collect_bounds(s, n - 1, parents, acc))
    }
}

/// One bound: a trait bound's `for<...>` lifetimes and its path's arguments,
/// or a lifetime.
pub open spec fn spec_collect_bound(b: SpecBound, parents: Seq<Seq<char>>, acc: SpecCollected) -> SpecCollected
    decreases b, 0int,
{
    match b {
        SpecBound::Trait { binder, path, .. } => spec_collect_segments(
            path.segments,
            path.segments.len() as int,
            parents,
            spec_collect_binder(binder, binder.len() as int, parents, acc),
        ),
        SpecBound::Lifetime(l) => spec_note(l, parents, acc),
        SpecBound::Other(_) => acc,
    }
}

/// The types of the first `n` parameters, leaving out the receiver and the
/// parameters marked in `unpacked`.
pub open spec fn spec_collect_inputs(
    s: Seq<SpecFnInput>,
    unpacked: Seq<bool>,
    n: int,
    acc: SpecCollected,
) -> SpecCollected
    decreases n,
{
    if n <= 0 || n > s.len() {
        acc
    } else {
        let acc1 = spec_collect_inputs(s, unpacked, n - 1, acc);
        match s[n - 1] {
            SpecFnInput::Typed { ty, .. } => if n - 1 < unpacked.len() && unpacked[n - 1] {
                acc1
            } else {
                spec_collect_ty(ty, Seq::empty(), acc1)
            },
            _ => acc1,
        }
    }
}

/// The lifetimes that `k` must outlive: those of the references that a
/// lifetime `k` stands inside.
pub open spec fn spec_outlives(events: Seq<(Seq<char>, Seq<Seq<char>>)>, k: Seq<char>) -> Set<
    Seq<char>,
> {
    Set::new(
        |p: Seq<char>|
            exists|i: int| 0 <= i < events.len() && events[i].0 == k && events[i].1.contains(p),
    )
}

/// Whether `ps` lists, by ascending lifetime, one predicate `'k: ...` for each
/// lifetime `k` that must outlive some other, with those others ascending.
pub open spec fn is_outlives_listing(
    ps: Seq<SpecWherePredicate>,
    events: Seq<(Seq<char>, Seq<Seq<char>>)>,
) -> bool {
    &&& forall|i: int|
        #![trigger ps[i]]
        0 <= i < ps.len() ==> {
            &&& ps[i] is Lifetime
            &&& strictly_sorted(ps[i]->outlives)
            &&& ps[i]->outlives.len() > 0
            &&& ps[i]->outlives.to_set() == spec_outlives(events, ps[i]->lifetime)
        }
    &&& forall|i: int, j: int|
        0 <= i < j < ps.len() ==> str_lt(#[trigger] ps[i]->lifetime, #[trigger] ps[j]->lifetime)
    &&& forall|k: Seq<char>, p: Seq<char>|
        #[trigger] spec_outlives(events, k).contains(p) ==> exists|i: int|
            0 <= i < ps.len() && #[trigger] ps[i]->lifetime == k
}

/// The listing of the outlives predicates.
pub open spec fn spec_outlives_listing(events: Seq<(Seq<char>, Seq<Seq<char>>)>) -> Seq<
    SpecWherePredicate,
> {
    choose|ps: Seq<SpecWherePredicate>| is_outlives_listing(ps, events)
}

/// The where clause with `added` appended; one is made where there was none
/// and something is added.
pub open spec fn spec_with_predicates(
    w: Option<Seq<SpecWherePredicate>>,
    added: Seq<SpecWherePredicate>,
) -> Option<Seq<SpecWherePredicate>> {
    if added.len() == 0 {
        w
    } else {
        Some(
            match w {
                Some(s) => s,
                None => Seq::empty(),
            } + added,
        )
    }
}

/// `T: 'a` for each implied pair, in order.
pub open spec fn spec_implied_predicates(implied: Seq<(SpecTy, Seq<char>)>) -> Seq<SpecWherePredicate> {
    Seq::new(
        implied.len(),
        |i: int|
            SpecWherePredicate::Type {
                ty: implied[i].0,
                bounds: seq![SpecBound::Lifetime(implied[i].1)],
            },
    )
}

/// What the parameters (but the receiver and the unpacked ones) and the
/// return type imply.
pub open spec fn spec_collect_sig(sig: SpecSig, unpacked: Seq<bool>) -> SpecCollected {
    let acc = spec_collect_inputs(sig.inputs, unpacked, sig.inputs.len() as int, spec_collected_start());
    match sig.output {
        Some(t) => spec_collect_ty(t, Seq::empty(), acc),
        None => acc,
    }
}

/// The signature with the implied bounds added to its where clause: first
/// `T: 'a` for every `&'a T` in the order they are written, then the
/// lifetime predicates.
pub open spec fn spec_synthesize(sig: SpecSig, unpacked: Seq<bool>) -> SpecSig {
    let c = spec_collect_sig(sig, unpacked);
    SpecSig {
        where_clause: spec_with_predicates(
            sig.where_clause,
            spec_implied_predicates(c.implied) + spec_outlives_listing(c.events),
        ),
        ..sig
    }
}

/// Synthesizing lifetime bounds changes only the where clause: the
/// generics, parameters and return type stay; the predicates already there
/// stay first, in order, with the new ones after them: `T: 'a` for each
/// reference `&'a T` met, in the order met, then the listing of the
/// outlives predicates of the lifetimes met inside references; and where
/// nothing is added, the where clause is left as it was (none is made).
pub proof fn lemma_synthesize_only_where(sig: SpecSig, unpacked: Seq<bool>)
    ensures
        spec_synthesize(sig, unpacked).generics == sig.generics,
        spec_synthesize(sig, unpacked).inputs == sig.inputs,
        spec_synthesize(sig, unpacked).output == sig.output,
        sig.where_clause is Some ==> spec_synthesize(sig, unpacked).where_clause is Some,
        spec_synthesize(sig, unpacked).where_clause matches Some(after) ==> {
            let before = match sig.where_clause {
                Some(w) => w,
                None => Seq::empty(),
            };
            let c = spec_collect_sig(sig, unpacked);
            &&& before.len() <= after.len()
            &&& after.subrange(0, before.len() as int) == before
            &&& after.subrange(before.len() as int, after.len() as int) == spec_implied_predicates(c.implied)
                + spec_outlives_listing(c.events)
        },
        spec_synthesize(sig, unpacked).where_clause is None ==> sig.where_clause is None,
{
    let c = spec_collect_sig(sig, unpacked);
    let added = spec_implied_predicates(c.implied) + spec_outlives_listing(c.events);
    let before = match sig.where_clause {
        Some(w) => w,
        None => Seq::<SpecWherePredicate>::empty(),
    };
    if added.len() > 0 {
        assert((before + added).subrange(0, before.len() as int) =~= before);
        assert((before + added).subrange(before.len() as int, (before + added).len() as int) =~= added);
    } else {
        if sig.where_clause is Some {
            assert(before.subrange(0, before.len() as int) =~= before);
            assert(before.subrange(before.len() as int, before.len() as int) =~= added);
        }
    }
}

/// There is at most one listing of the outlives predicates.
pub proof fn lemma_outlives_listing_unique(
    a: Seq<SpecWherePredicate>,
    b: Seq<SpecWherePredicate>,
    events: Seq<(Seq<char>, Seq<Seq<char>>)>,
)
    requires
        is_outlives_listing(a, events),
        is_outlives_listing(b, events),
    ensures
        a == b,
{
    let ka = Seq::new(a.len(), |i: int| a[i]->lifetime);
    let kb = Seq::new(b.len(), |i: int| b[i]->lifetime);
    assert(strictly_sorted(ka));
    assert(strictly_sorted(kb));
    assert forall|k: Seq<char>| ka.to_set().contains(k) implies kb.to_set().contains(k) by {
        let i = choose|i: int| 0 <= i < ka.len() && ka[i] == k;
        assert(a[i]->outlives.to_set().contains(a[i]->outlives[0]));
        assert(spec_outlives(events, k).contains(a[i]->outlives[0]));
        let j = choose|j: int| 0 <= j < b.len() && #[trigger] b[j]->lifetime == k;
        assert(kb[j] == k);
    }
    assert forall|k: Seq<char>| kb.to_set().contains(k) implies ka.to_set().contains(k) by {
        let i = choose|i: int| 0 <= i < kb.len() && kb[i] == k;
        assert(b[i]->outlives.to_set().contains(b[i]->outlives[0]));
        assert(spec_outlives(events, k).contains(b[i]->outlives[0]));
        let j = choose|j: int| 0 <= j < a.len() && #[trigger] a[j]->lifetime == k;
        assert(ka[j] == k);
    }
    assert(ka.to_set() =~= kb.to_set());
    lemma_sorted_unique(ka, kb);
    assert(a.len() == b.len()) by {
        assert(ka.len() == kb.len());
    }
    assert forall|i: int| 0 <= i < a.len() implies a[i] == b[i] by {
        assert(ka[i] == kb[i]);
        lemma_sorted_unique(a[i]->outlives, b[i]->outlives);
    }
    assert(a =~= b);
}


struct BoundCollector {
    implied: Vec<(Ty, String)>,
    events: Vec<(String, Vec<String>)>,
    parents: Vec<String>,
}

spec fn implied_view(s: Seq<(Ty, String)>) -> Seq<(SpecTy, Seq<char>)> {
    Seq::new(s.len(), |i: int| (s[i].0@, s[i].1@))
}

spec fn events_view(s: Seq<(String, Vec<String>)>) -> Seq<(Seq<char>, Seq<Seq<char>>)> {
    Seq::new(s.len(), |i: int| (s[i].0@, strings_view(s[i].1@)))
}

impl BoundCollector {
    spec fn acc(&self) -> SpecCollected {
        SpecCollected { implied: implied_view(self.implied@), events: events_view(self.events@) }
    }

    spec fn parents_v(&self) -> Seq<Seq<char>> {
        strings_view(self.parents@)
    }
}

fn note(l: &String, c: &mut BoundCollector)
    ensures
        final(c).acc() == spec_note(l@, old(c).parents_v(), old(c).acc()),
        final(c).parents_v() == old(c).parents_v(),
{
    let ghost e0 = c.events@;
    let ps = clone_strings(&c.parents);
    c.events.push((l.clone(), ps));
    assert(events_view(c.events@) =~= events_view(e0).push((l@, old(c).parents_v())));
}

#[verifier::loop_isolation(false)]
fn collect_binder(v: &Vec<String>, c: &mut BoundCollector)
    ensures
        final(c).acc() == spec_collect_binder(
            strings_view(v@),
            v@.len() as int,
            old(c).parents_v(),
            old(c).acc(),
        ),
        final(c).parents_v() == old(c).parents_v(),
{
    let ghost sv = strings_view(v@);
    let ghost c0 = *c;
    let mut k: usize = 0;
    while k < v.len()
        invariant
            k <= v@.len(),
            c.parents_v() == c0.parents_v(),
            c.acc() == spec_collect_binder(sv, k as int, c0.parents_v(), c0.acc()),
        decreases v@.len() - k,
    {
        note(&v[k], c);
        k = k + 1;
    }
}

fn collect_ty(t: &Ty, c: &mut BoundCollector)
    ensures
        final(c).acc() == spec_collect_ty(t@, old(c).parents_v(), old(c).acc()),
        final(c).parents_v() == old(c).parents_v(),
    decreases t, 0int,
{
    match t {
        Ty::Path(p) => {
            if p.qself.is_some() {
                assert((t@)->Path_0 == p@);
                return;
            }
            proof {
                assert(decreases_to!(*t => (*t)->Path_0));
                assert(decreases_to!((*t)->Path_0 => (*t)->Path_0.segments));
            }
            collect_segments(&p.segments, c);
        },
        Ty::Reference { lifetime, elem, .. } => {
            proof {
                assert(decreases_to!(*t => (*t)->Reference_elem));
            }
            match lifetime {
                Some(l) => {
                    let ghost i0 = c.implied@;
                    let ghost p0 = c.parents@;
                    let e = (**elem).clone();
                    c.implied.push((e, l.clone()));
                    assert(implied_view(c.implied@) =~= implied_view(i0).push(((**elem)@, l@)));
                    note(l, c);
                    c.parents.push(l.clone());
                    assert(strings_view(c.parents@) =~= strings_view(p0).push(l@));
                    collect_ty(elem, c);
                    let ghost cur = c.parents@;
                    assert(strings_view(cur) == strings_view(p0).push(l@));
                    let _ = c.parents.pop();
                    assert(strings_view(c.parents@) =~= strings_view(cur).take(cur.len() - 1));
                    assert(strings_view(c.parents@) =~= strings_view(p0));
                },
                None => collect_ty(elem, c),
            }
        },
        Ty::Ptr { elem, .. } => {
            proof {
                assert(decreases_to!(*t => (*t)->Ptr_elem));
            }
            collect_ty(elem, c);
        },
        Ty::Slice(elem) => {
            proof {
                assert(decreases_to!(*t => (*t)->Slice_0));
            }
            collect_ty(elem, c);
        },
        Ty::Array { elem, .. } => {
            proof {
                assert(decreases_to!(*t => (*t)->Array_elem));
            }
            collect_ty(elem, c);
        },
        Ty::Paren { elem, .. } => {
            proof {
                assert(decreases_to!(*t => (*t)->Paren_elem));
            }
            collect_ty(elem, c);
        },
        Ty::Group { elem, .. } => {
            proof {
                assert(decreases_to!(*t => (*t)->Group_elem));
            }
            collect_ty(elem, c);
        },
        Ty::Tuple(elems) => {
            proof {
                assert(decreases_to!(*t => (*t)->Tuple_0));
            }
            collect_tys(elems, c);
        },
        Ty::FnPtr { binder, output, .. } => {
            collect_binder(binder, c);
            match output {
                Some(o) => {
                    proof {
                        assert(decreases_to!(*t => (*t)->FnPtr_output));
                        assert(decreases_to!((*t)->FnPtr_output => (*t)->FnPtr_output->0));
                    }
                    collect_ty(o, c);
                },
                None => {},
            }
        },
        Ty::ImplTrait { bounds, .. } => {
            proof {
                assert(decreases_to!(*t => (*t)->ImplTrait_bounds));
            }
            collect_bounds(bounds, c);
        },
        Ty::TraitObject { bounds, .. } => {
            proof {
                assert(decreases_to!(*t => (*t)->TraitObject_bounds));
            }
            collect_bounds(bounds, c);
        },
        _ => {},
    }
}

#[verifier::loop_isolation(false)]
fn collect_tys(v: &Vec<Ty>, c: &mut BoundCollector)
    ensures
        final(c).acc() == spec_collect_tys(tys_view(v@), v@.len() as int, old(c).parents_v(), old(c).acc()),
        final(c).parents_v() == old(c).parents_v(),
    decreases v, 1int,
{
    let ghost sv = tys_view(v@);
    let ghost c0 = *c;
    let mut k: usize = 0;
    while k < v.len()
        invariant
            k <= v@.len(),
            c.parents_v() == c0.parents_v(),
            c.acc() == spec_collect_tys(sv, k as int, c0.parents_v(), c0.acc()),
        decreases v@.len() - k,
    {
        proof {
            assert(decreases_to!(*v => v@));
            assert(decreases_to!(v@ => v@[k as int]));
        }
        collect_ty(&v[k], c);
        k = k + 1;
    }
}

#[verifier::loop_isolation(false)]
fn collect_segments(v: &Vec<PathSegment>, c: &mut BoundCollector)
    ensures
        final(c).acc() == spec_collect_segments(
            segments_view(v@),
            v@.len() as int,
            old(c).parents_v(),
            old(c).acc(),
        ),
        final(c).parents_v() == old(c).parents_v(),
    decreases v, 1int,
{
    let ghost sv = segments_view(v@);
    let ghost c0 = *c;
    let mut k: usize = 0;
    while k < v.len()
        invariant
            k <= v@.len(),
            c.parents_v() == c0.parents_v(),
            c.acc() == spec_collect_segments(sv, k as int, c0.parents_v(), c0.acc()),
        decreases v@.len() - k,
    {
        proof {
            assert(decreases_to!(*v => v@));
            assert(decreases_to!(v@ => v@[k as int]));
            assert(decreases_to!(v@[k as int] => v@[k as int].args));
        }
        collect_args(&v[k].args, c);
        k = k + 1;
    }
}

fn collect_args(a: &PathArgs, c: &mut BoundCollector)
    ensures
        final(c).acc() == spec_collect_args(a@, old(c).parents_v(), old(c).acc()),
        final(c).parents_v() == old(c).parents_v(),
    decreases a, 0int,
{
    match a {
        PathArgs::Bare => {},
        PathArgs::Angle(args) => {
            proof {
                assert(decreases_to!(*a => (*a)->Angle_0));
            }
            collect_arg_list(args, c);
        },
        PathArgs::Parenthesized(_, output) => match output {
            Some(o) => {
                proof {
                    assert(decreases_to!(*a => (*a)->Parenthesized_1));
                    assert(decreases_to!((*a)->Parenthesized_1 => (*a)->Parenthesized_1->0));
                }
                collect_ty(o, c);
            },
            None => {},
        },
    }
}

#[verifier::loop_isolation(false)]
fn collect_arg_list(v: &Vec<GenericArg>, c: &mut BoundCollector)
    ensures
        final(c).acc() == spec_collect_arg_list(
            generic_args_view(v@),
            v@.len() as int,
            old(c).parents_v(),
            old(c).acc(),
        ),
        final(c).parents_v() == old(c).parents_v(),
    decreases v, 1int,
{
    let ghost sv = generic_args_view(v@);
    let ghost c0 = *c;
    let mut k: usize = 0;
    while k < v.len()
        invariant
            k <= v@.len(),
            c.parents_v() == c0.parents_v(),
            c.acc() == spec_collect_arg_list(sv, k as int, c0.parents_v(), c0.acc()),
        decreases v@.len() - k,
    {
        proof {
            assert(decreases_to!(*v => v@));
            assert(decreases_to!(v@ => v@[k as int]));
        }
        collect_arg(&v[k], c);
        k = k + 1;
    }
}

fn collect_arg(a: &GenericArg, c: &mut BoundCollector)
    ensures
        final(c).acc() == spec_collect_arg(a@, old(c).parents_v(), old(c).acc()),
        final(c).parents_v() == old(c).parents_v(),
    decreases a, 0int,
{
    match a {
        GenericArg::Lifetime(l) => note(l, c),
        GenericArg::Type(t) => {
            proof {
                assert(decreases_to!(*a => (*a)->Type_0));
            }
            collect_ty(t, c);
        },
        GenericArg::AssocType(_, t) => {
            proof {
                assert(decreases_to!(*a => (*a)->AssocType_1));
            }
            collect_ty(t, c);
        },
        GenericArg::Constraint(_, bounds) => {
            proof {
                assert(decreases_to!(*a => (*a)->Constraint_1));
            }
            collect_bounds(bounds, c);
        },
        _ => {},
    }
}

#[verifier::loop_isolation(false)]
fn collect_bounds(v: &Vec<Bound>, c: &mut BoundCollector)
    ensures
        final(c).acc() == spec_collect_bounds(
            bounds_view(v@),
            v@.len() as int,
            old(c).parents_v(),
            old(c).acc(),
        ),
        final(c).parents_v() == old(c).parents_v(),
    decreases v, 1int,
{
    let ghost sv = bounds_view(v@);
    let ghost c0 = *c;
    let mut k: usize = 0;
    while k < v.len()
        invariant
            k <= v@.len(),
            c.parents_v() == c0.parents_v(),
            c.acc() == spec_collect_bounds(sv, k as int, c0.parents_v(), c0.acc()),
        decreases v@.len() - k,
    {
        proof {
            assert(decreases_to!(*v => v@));
            assert(decreases_to!(v@ => v@[k as int]));
        }
        collect_bound(&v[k], c);
        k = k + 1;
    }
}

fn collect_bound(b: &Bound, c: &mut BoundCollector)
    ensures
        final(c).acc() == spec_collect_bound(b@, old(c).parents_v(), old(c).acc()),
        final(c).parents_v() == old(c).parents_v(),
    decreases b, 0int,
{
    match b {
        Bound::Trait { binder, path, .. } => {
            collect_binder(binder, c);
            proof {
                assert(decreases_to!(*b => (*b)->path));
                assert(decreases_to!((*b)->path => (*b)->path.segments));
            }
            collect_segments(&path.segments, c);
        },
        Bound::Lifetime(l) => note(l, c),
        Bound::Other(_) => {},
    }
}


spec fn outlives_upto(ev: Seq<(Seq<char>, Seq<Seq<char>>)>, k: Seq<char>, n: int) -> Set<Seq<char>> {
    Set::new(|p: Seq<char>| exists|j: int| 0 <= j < n && ev[j].0 == k && ev[j].1.contains(p))
}

spec fn keys_upto(ev: Seq<(Seq<char>, Seq<Seq<char>>)>, n: int) -> Set<Seq<char>> {
    Set::new(|k: Seq<char>| exists|j: int| 0 <= j < n && ev[j].0 == k)
}

fn outlives_of(events: &Vec<(String, Vec<String>)>, k: &String) -> (r: Vec<String>)
    ensures
        strictly_sorted(strings_view(r@)),
        strings_view(r@).to_set() == spec_outlives(events_view(events@), k@),
{
    let ghost ev = events_view(events@);
    let mut r: Vec<String> = Vec::new();
    assert(strings_view(r@).to_set() =~= outlives_upto(ev, k@, 0));
    let mut i: usize = 0;
    while i < events.len()
        invariant
            i <= events@.len(),
            ev == events_view(events@),
            strictly_sorted(strings_view(r@)),
            strings_view(r@).to_set() == outlives_upto(ev, k@, i as int),
        decreases events@.len() - i,
    {
        let ghost before = outlives_upto(ev, k@, i as int);
        let ghost ps_v = ev[i as int].1;
        if str_eq(events[i].0.as_str(), k.as_str()) {
            let ps = &events[i].1;
            assert(ps_v == strings_view(ps@));
            let mut m: usize = 0;
            while m < ps.len()
                invariant
                    m <= ps@.len(),
                    ps_v == strings_view(ps@),
                    strictly_sorted(strings_view(r@)),
                    strings_view(r@).to_set() == before + ps_v.take(m as int).to_set(),
                decreases ps@.len() - m,
            {
                let ghost r0 = strings_view(r@).to_set();
                insert_sorted(&mut r, ps[m].clone());
                assert(ps_v.take(m + 1 as int).to_set() =~= ps_v.take(m as int).to_set().insert(ps_v[m as int])) by {
                    assert(ps_v.take(m + 1 as int) =~= ps_v.take(m as int).push(ps_v[m as int]));
                    assert forall|p: Seq<char>| ps_v.take(m + 1 as int).to_set().contains(p) implies ps_v.take(m as int).to_set().insert(ps_v[m as int]).contains(p) by {
                        let q = choose|q: int| 0 <= q < m + 1 && #[trigger] ps_v.take(m + 1 as int)[q] == p;
                        if q < m {
                            assert(ps_v.take(m as int)[q] == p);
                        }
                    }
                    assert forall|p: Seq<char>| ps_v.take(m as int).to_set().insert(ps_v[m as int]).contains(p) implies ps_v.take(m + 1 as int).to_set().contains(p) by {
                        if p == ps_v[m as int] {
                            assert(ps_v.take(m + 1 as int)[m as int] == p);
                        } else {
                            let q = choose|q: int| 0 <= q < m && #[trigger] ps_v.take(m as int)[q] == p;
                            assert(ps_v.take(m + 1 as int)[q] == p);
                        }
                    }
                }
                m = m + 1;
                assert(strings_view(r@).to_set() =~= before + ps_v.take(m as int).to_set());
            }
            assert(ps_v.take(ps_v.len() as int) =~= ps_v);
            assert(outlives_upto(ev, k@, i + 1) =~= before + ps_v.to_set()) by {
                assert forall|p: Seq<char>| outlives_upto(ev, k@, i + 1).contains(p) implies (before + ps_v.to_set()).contains(p) by {
                    let j = choose|j: int| 0 <= j < i + 1 && ev[j].0 == k@ && ev[j].1.contains(p);
                    if j < i {
                        assert(before.contains(p));
                    }
                }
                assert forall|p: Seq<char>| (before + ps_v.to_set()).contains(p) implies outlives_upto(ev, k@, i + 1).contains(p) by {
                    if before.contains(p) {
                        let j = choose|j: int| 0 <= j < i && ev[j].0 == k@ && ev[j].1.contains(p);
                        assert(0 <= j < i + 1 && ev[j].0 == k@ && ev[j].1.contains(p));
                    } else {
                        assert(ps_v.contains(p));
                        assert(0 <= i < i + 1 && ev[i as int].0 == k@ && ev[i as int].1.contains(p));
                    }
                }
            }
        } else {
            assert(outlives_upto(ev, k@, i + 1) =~= before) by {
                assert forall|p: Seq<char>| outlives_upto(ev, k@, i + 1).contains(p) implies before.contains(p) by {
                    let j = choose|j: int| 0 <= j < i + 1 && ev[j].0 == k@ && ev[j].1.contains(p);
                    assert(j != i);
                }
            }
        }
        i = i + 1;
    }
    assert(outlives_upto(ev, k@, events@.len() as int) =~= spec_outlives(ev, k@));
    r
}

fn sorted_keys(events: &Vec<(String, Vec<String>)>) -> (r: Vec<String>)
    ensures
        strictly_sorted(strings_view(r@)),
        strings_view(r@).to_set() == keys_upto(events_view(events@), events@.len() as int),
{
    let ghost ev = events_view(events@);
    let mut r: Vec<String> = Vec::new();
    assert(strings_view(r@).to_set() =~= keys_upto(ev, 0));
    let mut i: usize = 0;
    while i < events.len()
        invariant
            i <= events@.len(),
            ev == events_view(events@),
            strictly_sorted(strings_view(r@)),
            strings_view(r@).to_set() == keys_upto(ev, i as int),
        decreases events@.len() - i,
    {
        insert_sorted(&mut r, events[i].0.clone());
        assert(keys_upto(ev, i + 1) =~= keys_upto(ev, i as int).insert(ev[i as int].0)) by {
            assert forall|k: Seq<char>| keys_upto(ev, i + 1).contains(k) implies keys_upto(ev, i as int).insert(ev[i as int].0).contains(k) by {
                let j = choose|j: int| 0 <= j < i + 1 && ev[j].0 == k;
                if j < i {
                    assert(keys_upto(ev, i as int).contains(k));
                }
            }
            assert forall|k: Seq<char>| keys_upto(ev, i as int).insert(ev[i as int].0).contains(k) implies keys_upto(ev, i + 1).contains(k) by {
                if k != ev[i as int].0 {
                    let j = choose|j: int| 0 <= j < i && ev[j].0 == k;
                    assert(0 <= j < i + 1 && ev[j].0 == k);
                } else {
                    assert(0 <= i < i + 1 && ev[i as int].0 == k);
                }
            }
        }
        i = i + 1;
    }
    r
}

fn build_listing(events: &Vec<(String, Vec<String>)>) -> (r: Vec<WherePredicate>)
    ensures
        is_outlives_listing(predicates_view(r@), events_view(events@)),
{
    let ghost ev = events_view(events@);
    let keys = sorted_keys(events);
    let ghost kv = strings_view(keys@);
    let mut r: Vec<WherePredicate> = Vec::new();
    let mut m: usize = 0;
    while m < keys.len()
        invariant
            m <= keys@.len(),
            ev == events_view(events@),
            kv == strings_view(keys@),
            strictly_sorted(kv),
            kv.to_set() == keys_upto(ev, ev.len() as int),
            forall|i: int|
                #![trigger predicates_view(r@)[i]]
                0 <= i < r@.len() ==> {
                    &&& predicates_view(r@)[i] is Lifetime
                    &&& strictly_sorted(predicates_view(r@)[i]->outlives)
                    &&& predicates_view(r@)[i]->outlives.len() > 0
                    &&& predicates_view(r@)[i]->outlives.to_set() == spec_outlives(
                        ev,
                        predicates_view(r@)[i]->lifetime,
                    )
                    &&& exists|q: int| 0 <= q < m && kv[q] == predicates_view(r@)[i]->lifetime
                },
            forall|i: int, j: int|
                0 <= i < j < r@.len() ==> str_lt(
                    #[trigger] predicates_view(r@)[i]->lifetime,
                    #[trigger] predicates_view(r@)[j]->lifetime,
                ),
            forall|q: int, p: Seq<char>|
                0 <= q < m && #[trigger] spec_outlives(ev, kv[q]).contains(p) ==> exists|i: int|
                    0 <= i < r@.len() && #[trigger] predicates_view(r@)[i]->lifetime == kv[q],
        decreases keys@.len() - m,
    {
        let outl = outlives_of(events, &keys[m]);
        let ghost r0 = predicates_view(r@);
        if outl.len() > 0 {
            let pred = WherePredicate::Lifetime { lifetime: keys[m].clone(), outlives: outl };
            r.push(pred);
            assert(predicates_view(r@) =~= r0.push(pred@));
            assert forall|i: int, j: int|
                0 <= i < j < r@.len() implies str_lt(
                #[trigger] predicates_view(r@)[i]->lifetime,
                #[trigger] predicates_view(r@)[j]->lifetime,
            ) by {
                if j == r@.len() - 1 {
                    let q = choose|q: int| 0 <= q < m && kv[q] == r0[i]->lifetime;
                    assert(str_lt(kv[q], kv[m as int]));
                }
            }
            assert(predicates_view(r@)[r@.len() - 1]->lifetime == kv[m as int]);
            assert forall|q: int, p: Seq<char>|
                0 <= q < m + 1 && #[trigger] spec_outlives(ev, kv[q]).contains(p) implies exists|i: int|
                0 <= i < r@.len() && #[trigger] predicates_view(r@)[i]->lifetime == kv[q] by {
                if q < m {
                    let i = choose|i: int| 0 <= i < r0.len() && #[trigger] r0[i]->lifetime == kv[q];
                    assert(predicates_view(r@)[i]->lifetime == kv[q]);
                } else {
                    assert(predicates_view(r@)[r@.len() - 1]->lifetime == kv[q]);
                }
            }
        } else {
            assert forall|p: Seq<char>| !spec_outlives(ev, kv[m as int]).contains(p) by {
                if spec_outlives(ev, kv[m as int]).contains(p) {
                    assert(strings_view(outl@).to_set().contains(p));
                }
            }
        }
        m = m + 1;
    }
    let ghost pv = predicates_view(r@);
    assert forall|k: Seq<char>, p: Seq<char>|
        #[trigger] spec_outlives(ev, k).contains(p) implies exists|i: int|
        0 <= i < pv.len() && #[trigger] pv[i]->lifetime == k by {
        let j = choose|j: int| 0 <= j < ev.len() && ev[j].0 == k && ev[j].1.contains(p);
        assert(keys_upto(ev, ev.len() as int).contains(k));
        assert(kv.to_set().contains(k));
        let q = choose|q: int| 0 <= q < kv.len() && kv[q] == k;
        assert(spec_outlives(ev, kv[q]).contains(p));
    }
    r
}


/// Adds to the where clause the bounds that the types of the signature imply
/// and that its generated declarations must state: `T: 'a` for every `&'a T`
/// in the parameters and the return type, in the order they are written,
/// then `'b: 'a + ...` for each lifetime `'b` written inside `&'a`
/// references, by ascending `'b`, its lifetimes ascending. The receiver, the
/// parameters that `unpacked` marks (their bounds belong to the parts they
/// are unpacked into), paths with a qualified self type, and the parameters
/// of function pointer types are left out.
pub fn synthesize_lifetime_bounds(sig: &mut FnSig, unpacked: &Vec<bool>)
    ensures
        final(sig)@ == spec_synthesize(old(sig)@, unpacked@),
{
    let ghost s0 = sig@;
    let mut c = BoundCollector { implied: Vec::new(), events: Vec::new(), parents: Vec::new() };
    assert(c.acc() == spec_collected_start()) by {
        assert(implied_view(c.implied@) =~= Seq::<(SpecTy, Seq<char>)>::empty());
        assert(events_view(c.events@) =~= Seq::<(Seq<char>, Seq<Seq<char>>)>::empty());
    }
    assert(c.parents_v() =~= Seq::<Seq<char>>::empty());
    let n = sig.inputs.len();
    let mut i: usize = 0;
    while i < n
        invariant
            i <= n,
            n == sig.inputs@.len(),
            s0 == sig@,
            c.parents_v() == Seq::<Seq<char>>::empty(),
            c.acc() == spec_collect_inputs(s0.inputs, unpacked@, i as int, spec_collected_start()),
        decreases n - i,
    {
        assert(s0.inputs[i as int] == sig.inputs@[i as int]@);
        match &sig.inputs[i] {
            FnInput::Typed { ty, .. } => {
                if !(i < unpacked.len() && unpacked[i]) {
                    collect_ty(ty, &mut c);
                }
            },
            _ => {},
        }
        i = i + 1;
    }
    match &sig.output {
        Some(t) => collect_ty(t, &mut c),
        None => {},
    }
    let ghost coll = c.acc();
    assert(coll == spec_collect_sig(s0, unpacked@));
    let mut added: Vec<WherePredicate> = Vec::new();
    let mut j: usize = 0;
    while j < c.implied.len()
        invariant
            j <= c.implied@.len(),
            coll == c.acc(),
            predicates_view(added@) == spec_implied_predicates(coll.implied).take(j as int),
        decreases c.implied@.len() - j,
    {
        let ghost a0 = predicates_view(added@);
        let b: Vec<Bound> = vec![Bound::Lifetime(c.implied[j].1.clone())];
        let pred = WherePredicate::Type { ty: c.implied[j].0.clone(), bounds: b };
        assert(bounds_view(b@) =~= seq![SpecBound::Lifetime(coll.implied[j as int].1)]);
        added.push(pred);
        assert(predicates_view(added@) =~= a0.push(pred@));
        j = j + 1;
        assert(predicates_view(added@) =~= spec_implied_predicates(coll.implied).take(j as int));
    }
    assert(spec_implied_predicates(coll.implied).take(j as int) =~= spec_implied_predicates(
        coll.implied,
    ));
    let mut listing = build_listing(&c.events);
    let ghost lv = predicates_view(listing@);
    let ghost av = predicates_view(added@);
    proof {
        lemma_outlives_listing_unique(lv, spec_outlives_listing(coll.events), coll.events);
    }
    added.append(&mut listing);
    assert(predicates_view(added@) =~= av + lv);
    if added.len() > 0 {
        let mut w: Option<Vec<WherePredicate>> = None;
        std::mem::swap(&mut w, &mut sig.where_clause);
        let mut preds = match w {
            Some(p) => p,
            None => Vec::new(),
        };
        let ghost pv = predicates_view(preds@);
        let ghost add_v = predicates_view(added@);
        preds.append(&mut added);
        assert(predicates_view(preds@) =~= pv + add_v);
        sig.where_clause = Some(preds);
    }
}

} // verus!
