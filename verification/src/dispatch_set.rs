//! The trait that names the set of statically dispatched instantiations of
//! a generic item: a sealed supertrait in a module of its own, the trait,
//! and for each selection an impl of both for `()`; and the where clause of
//! such an impl, which keeps `?Sized` only where it bounds a parameter that
//! the impl still declares.
use vstd::prelude::*;
use crate::codegen::{ident, lists_view};
use crate::struct_codegen::{comma_joined, spec_comma_joined};
use crate::preprocess::append_toks;
use crate::signature::{SpecWherePredicate, WherePredicate, predicates_view};
use crate::tokens::{Delimiter, SpecTok, Tok, toks_view};
use crate::types::{Bound, PathArgs, SpecArgs, SpecBound, bounds_view, path_is_ident};

verus! {

/// Whether a bound is `?Sized`.
pub open spec fn spec_is_maybe_sized(b: SpecBound) -> bool {
    match b {
        SpecBound::Trait { maybe, path, .. } => maybe && path.qself is None && !path.leading_colon && path.segments.len() == 1
            && path.segments[0].args is Bare && path.segments[0].ident == "Sized"@,
        _ => false,
    }
}

/// The first `n` bounds without those that are `?Sized`.
pub open spec fn spec_without_maybe_sized(bs: Seq<SpecBound>, n: int) -> Seq<SpecBound>
    decreases n,
{
    if n <= 0 || n > bs.len() {
        Seq::empty()
    } else {
        spec_without_maybe_sized(bs, n - 1) + if spec_is_maybe_sized(bs[n - 1]) {
            Seq::empty()
        } else {
            seq![bs[n - 1]]
        }
    }
}

/// One predicate of a selection's impl: kept where it bounds a type that
/// mentions a parameter the impl declares (`mentions_aux`) or where it bounds
/// a lifetime; else kept without its `?Sized` bounds, and dropped where none
/// is left.
pub open spec fn spec_pruned_predicate(p: SpecWherePredicate, mentions_aux: bool) -> Seq<SpecWherePredicate> {
    match p {
        SpecWherePredicate::Type { ty, bounds } => if mentions_aux {
            seq![p]
        } else {
            let kept = spec_without_maybe_sized(bounds, bounds.len() as int);
            if kept.len() == 0 {
                Seq::empty()
            } else {
                seq![SpecWherePredicate::Type { ty, bounds: kept }]
            }
        },
        SpecWherePredicate::Lifetime { .. } => seq![p],
    }
}

/// The first `n` predicates of a selection's impl, pruned.
pub open spec fn spec_pruned_predicates(ps: Seq<SpecWherePredicate>, mentions_aux: Seq<bool>, n: int) -> Seq<SpecWherePredicate>
    decreases n,
{
    if n <= 0 || n > ps.len() {
        Seq::empty()
    } else {
        spec_pruned_predicates(ps, mentions_aux, n - 1) + spec_pruned_predicate(ps[n - 1], mentions_aux[n - 1])
    }
}

fn is_maybe_sized(b: &Bound) -> (r: bool)
    ensures
        r == spec_is_maybe_sized(crate::types::bound_view(*b)),
{
    match b {
        Bound::Trait { maybe, path, .. } => {
            let r = *maybe && path_is_ident(path, "Sized");
            proof {
                reveal_strlit("Sized");
                let pv = crate::types::path_view(*path);
                assert(pv.segments =~= crate::types::segments_view(path.segments@));
                if path.segments@.len() == 1 {
                    assert(pv.segments[0].ident == path.segments@[0].ident@);
                    assert((pv.segments[0].args is Bare) == (path.segments@[0].args is Bare));
                }
            }
            r
        },
        _ => false,
    }
}

fn without_maybe_sized(bs: Vec<Bound>) -> (r: Vec<Bound>)
    ensures
        bounds_view(r@) == spec_without_maybe_sized(bounds_view(bs@), bs@.len() as int),
{
    let ghost all = bounds_view(bs@);
    let ghost n = bs@.len();
    assert(n == bs.len());
    let mut rest = bs;
    let mut out: Vec<Bound> = Vec::new();
    let mut k: usize = 0;
    assert(bounds_view(out@) =~= Seq::<SpecBound>::empty());
    while rest.len() > 0
        invariant
            k + rest@.len() == n,
            n <= usize::MAX,
            all.len() == n,
            bounds_view(rest@) =~= all.subrange(k as int, n as int),
            bounds_view(out@) == spec_without_maybe_sized(all, k as int),
        decreases rest@.len(),
    {
        let ghost r0 = bounds_view(rest@);
        let b = rest.remove(0);
        assert(crate::types::bound_view(b) == all[k as int]) by {
            assert(r0[0] == all[k as int]);
        }
        assert(bounds_view(rest@) =~= all.subrange(k + 1, n as int)) by {
            assert forall|j: int| 0 <= j < rest@.len() implies bounds_view(rest@)[j] == all[k + 1 + j] by {
                assert(r0[j + 1] == all[k + 1 + j]);
            }
        }
        let ghost o0 = bounds_view(out@);
        if !is_maybe_sized(&b) {
            out.push(b);
            assert(bounds_view(out@) =~= o0 + seq![all[k as int]]);
        } else {
            assert(bounds_view(out@) =~= o0 + Seq::<SpecBound>::empty());
        }
        k = k + 1;
    }
    out
}

/// The where clause of a selection's impl (see `spec_pruned_predicates`),
/// from its predicates and, for each, whether the type it bounds mentions a
/// parameter that the impl declares.
pub fn prune_dispatch_impl_predicates(preds: Vec<WherePredicate>, mentions_aux: &Vec<bool>) -> (r: Vec<WherePredicate>)
    requires
        mentions_aux@.len() == preds@.len(),
    ensures
        predicates_view(r@) == spec_pruned_predicates(predicates_view(preds@), mentions_aux@, preds@.len() as int),
{
    let ghost all = predicates_view(preds@);
    let ghost n = preds@.len();
    assert(n == preds.len());
    let mut rest = preds;
    let mut out: Vec<WherePredicate> = Vec::new();
    let mut k: usize = 0;
    assert(predicates_view(out@) =~= Seq::<SpecWherePredicate>::empty());
    while rest.len() > 0
        invariant
            k + rest@.len() == n,
            n <= usize::MAX,
            all.len() == n,
            mentions_aux@.len() == n,
            predicates_view(rest@) =~= all.subrange(k as int, n as int),
            predicates_view(out@) == spec_pruned_predicates(all, mentions_aux@, k as int),
        decreases rest@.len(),
    {
        let ghost r0 = predicates_view(rest@);
        let p = rest.remove(0);
        assert(p@ == all[k as int]) by {
            assert(r0[0] == all[k as int]);
        }
        assert(predicates_view(rest@) =~= all.subrange(k + 1, n as int)) by {
            assert forall|j: int| 0 <= j < rest@.len() implies predicates_view(rest@)[j] == all[k + 1 + j] by {
                assert(r0[j + 1] == all[k + 1 + j]);
            }
        }
        let ghost o0 = predicates_view(out@);
        let aux = mentions_aux[k];
        match p {
            WherePredicate::Type { ty, bounds } => {
                if aux {
                    let q = WherePredicate::Type { ty, bounds };
                    out.push(q);
                    assert(predicates_view(out@) =~= o0 + spec_pruned_predicate(all[k as int], aux));
                } else {
                    let kept = without_maybe_sized(bounds);
                    if kept.len() == 0 {
                        assert(predicates_view(out@) =~= o0 + spec_pruned_predicate(all[k as int], aux));
                    } else {
                        let q = WherePredicate::Type { ty, bounds: kept };
                        out.push(q);
                        assert(predicates_view(out@) =~= o0 + spec_pruned_predicate(all[k as int], aux));
                    }
                }
            },
            WherePredicate::Lifetime { lifetime, outlives } => {
                let q = WherePredicate::Lifetime { lifetime, outlives };
                out.push(q);
                assert(predicates_view(out@) =~= o0 + spec_pruned_predicate(all[k as int], aux));
            },
        }
        k = k + 1;
    }
    out
}

/// One selection's impls: the lifetimes and the parameters that the impl
/// still declares (each as its tokens), the selection's arguments to the
/// trait, the impl's where clause, and the trait's items for it.
#[derive(Debug, PartialEq, Eq)]
pub struct DispatchSetImpl {
    pub lifetimes: Vec<Vec<Tok>>,
    pub aux_params: Vec<Vec<Tok>>,
    pub selection_args: Vec<Tok>,
    pub where_clause: Vec<Tok>,
    pub items: Vec<Tok>,
}

/// The value of a selection's impls.
pub struct SpecDispatchSetImpl {
    pub lifetimes: Seq<Seq<SpecTok>>,
    pub aux_params: Seq<Seq<SpecTok>>,
    pub selection_args: Seq<SpecTok>,
    pub where_clause: Seq<SpecTok>,
    pub items: Seq<SpecTok>,
}

impl View for DispatchSetImpl {
    type V = SpecDispatchSetImpl;

    open spec fn view(&self) -> SpecDispatchSetImpl {
        SpecDispatchSetImpl {
            lifetimes: lists_view(self.lifetimes@),
            aux_params: lists_view(self.aux_params@),
            selection_args: toks_view(self.selection_args@),
            where_clause: toks_view(self.where_clause@),
            items: toks_view(self.items@),
        }
    }
}

/// The values of a sequence of selections' impls.
pub open spec fn set_impls_view(s: Seq<DispatchSetImpl>) -> Seq<SpecDispatchSetImpl> {
    Seq::new(s.len(), |i: int| s[i]@)
}

/// The first `n` parts, each followed by a comma.
pub open spec fn spec_each_then_comma(parts: Seq<Seq<SpecTok>>, n: int) -> Seq<SpecTok>
    decreases n,
{
    if n <= 0 || n > parts.len() {
        Seq::empty()
    } else {
        spec_each_then_comma(parts, n - 1) + parts[n - 1] + seq![SpecTok::Punct(',', false)]
    }
}

/// An impl's generics: none where it declares nothing, else
/// `<'a, 'b, P, Q>` with each lifetime followed by a comma.
pub open spec fn spec_set_impl_generics(lts: Seq<Seq<SpecTok>>, aux: Seq<Seq<SpecTok>>) -> Seq<SpecTok> {
    if lts.len() == 0 && aux.len() == 0 {
        Seq::empty()
    } else {
        seq![SpecTok::Punct('<', false)] + spec_each_then_comma(lts, lts.len() as int) + spec_comma_joined(aux) + seq![
            SpecTok::Punct('>', false),
        ]
    }
}

/// The trait's generics: none where it has no parameter, else `<params>`.
pub open spec fn spec_decl_generics(params: Seq<SpecTok>) -> Seq<SpecTok> {
    if params.len() == 0 {
        Seq::empty()
    } else {
        seq![SpecTok::Punct('<', false)] + params + seq![SpecTok::Punct('>', false)]
    }
}

/// `module::Sealed<args>`
pub open spec fn spec_sealed_path(module: Seq<char>, args: Seq<SpecTok>) -> Seq<SpecTok> {
    seq![
        SpecTok::Ident(module),
        SpecTok::Punct(':', true),
        SpecTok::Punct(':', false),
        SpecTok::Ident("Sealed"@),
        SpecTok::Punct('<', false),
    ] + args + seq![SpecTok::Punct('>', false)]
}

/// A selection's two impls for `()`: of the sealed trait, empty, and of the
/// set's trait, with the selection's items.
pub open spec fn spec_set_impl(name: Seq<char>, module: Seq<char>, m: SpecDispatchSetImpl) -> Seq<SpecTok> {
    let ig = spec_set_impl_generics(m.lifetimes, m.aux_params);
    let unit = seq![SpecTok::Ident("for"@), SpecTok::Group(Delimiter::Parenthesis, Seq::empty())];
    seq![SpecTok::Ident("impl"@)] + ig + spec_sealed_path(module, m.selection_args) + unit + m.where_clause + seq![
        SpecTok::Group(Delimiter::Brace, Seq::empty()),
        SpecTok::Ident("impl"@),
    ] + ig + seq![SpecTok::Ident(name), SpecTok::Punct('<', false)] + m.selection_args + seq![SpecTok::Punct('>', false)] + unit
        + m.where_clause + seq![SpecTok::Group(Delimiter::Brace, m.items)]
}

/// The impls of the first `n` selections.
pub open spec fn spec_set_impls(name: Seq<char>, module: Seq<char>, ms: Seq<SpecDispatchSetImpl>, n: int) -> Seq<SpecTok>
    decreases n,
{
    if n <= 0 || n > ms.len() {
        Seq::empty()
    } else {
        spec_set_impls(name, module, ms, n - 1) + spec_set_impl(name, module, ms[n - 1])
    }
}

/// A dispatch set: `mod module { use super::*; pub trait Sealed<..> where .. {} }`,
/// `pub(super) trait Name<..>: module::Sealed<args> where .. { items }`, and
/// each selection's impls.
pub open spec fn spec_dispatch_set(
    name: Seq<char>,
    module: Seq<char>,
    params: Seq<SpecTok>,
    wc: Seq<SpecTok>,
    args: Seq<SpecTok>,
    items: Seq<SpecTok>,
    ms: Seq<SpecDispatchSetImpl>,
) -> Seq<SpecTok> {
    let decl = spec_decl_generics(params);
    seq![
        SpecTok::Ident("mod"@),
        SpecTok::Ident(module),
        SpecTok::Group(
            Delimiter::Brace,
            seq![
                SpecTok::Ident("use"@),
                SpecTok::Ident("super"@),
                SpecTok::Punct(':', true),
                SpecTok::Punct(':', false),
                SpecTok::Punct('*', false),
                SpecTok::Punct(';', false),
                SpecTok::Ident("pub"@),
                SpecTok::Ident("trait"@),
                SpecTok::Ident("Sealed"@),
            ] + decl + wc + seq![SpecTok::Group(Delimiter::Brace, Seq::empty())],
        ),
        SpecTok::Ident("pub"@),
        SpecTok::Group(Delimiter::Parenthesis, seq![SpecTok::Ident("super"@)]),
        SpecTok::Ident("trait"@),
        SpecTok::Ident(name),
    ] + decl + seq![SpecTok::Punct(':', false)] + spec_sealed_path(module, args) + wc + seq![
        SpecTok::Group(Delimiter::Brace, items),
    ] + spec_set_impls(name, module, ms, ms.len() as int)
}

fn each_then_comma(parts: &Vec<Vec<Tok>>) -> (r: Vec<Tok>)
    ensures
        toks_view(r@) == spec_each_then_comma(lists_view(parts@), parts@.len() as int),
{
    let ghost pv = lists_view(parts@);
    let mut out: Vec<Tok> = Vec::new();
    assert(toks_view(out@) =~= Seq::<SpecTok>::empty());
    let mut i: usize = 0;
    while i < parts.len()
        invariant
            i <= parts@.len(),
            pv == lists_view(parts@),
            toks_view(out@) == spec_each_then_comma(pv, i as int),
        decreases parts@.len() - i,
    {
        let ghost o0 = toks_view(out@);
        append_toks(&mut out, &parts[i]);
        let ghost o1 = toks_view(out@);
        out.push(Tok::Punct(',', false));
        assert(toks_view(out@) =~= o1 + seq![SpecTok::Punct(',', false)]);
        i = i + 1;
    }
    out
}

fn set_impl_generics(lts: &Vec<Vec<Tok>>, aux: &Vec<Vec<Tok>>) -> (r: Vec<Tok>)
    ensures
        toks_view(r@) == spec_set_impl_generics(lists_view(lts@), lists_view(aux@)),
{
    if lts.len() == 0 && aux.len() == 0 {
        let r: Vec<Tok> = Vec::new();
        assert(toks_view(r@) =~= Seq::<SpecTok>::empty());
        r
    } else {
        let mut r = vec![Tok::Punct('<', false)];
        assert(toks_view(r@) =~= seq![SpecTok::Punct('<', false)]);
        append_toks(&mut r, &each_then_comma(lts));
        append_toks(&mut r, &comma_joined(aux));
        let ghost r0 = toks_view(r@);
        r.push(Tok::Punct('>', false));
        assert(toks_view(r@) =~= r0 + seq![SpecTok::Punct('>', false)]);
        r
    }
}

fn sealed_path(module: &str, args: &Vec<Tok>) -> (r: Vec<Tok>)
    ensures
        toks_view(r@) == spec_sealed_path(module@, toks_view(args@)),
{
    proof {
        reveal_strlit("Sealed");
    }
    let mut r = vec![ident(module), Tok::Punct(':', true), Tok::Punct(':', false), ident("Sealed"), Tok::Punct('<', false)];
    assert(toks_view(r@) =~= seq![
        SpecTok::Ident(module@),
        SpecTok::Punct(':', true),
        SpecTok::Punct(':', false),
        SpecTok::Ident("Sealed"@),
        SpecTok::Punct('<', false),
    ]);
    append_toks(&mut r, args);
    let ghost r0 = toks_view(r@);
    r.push(Tok::Punct('>', false));
    assert(toks_view(r@) =~= r0 + seq![SpecTok::Punct('>', false)]);
    r
}

fn set_impl(name: &str, module: &str, m: &DispatchSetImpl) -> (r: Vec<Tok>)
    ensures
        toks_view(r@) == spec_set_impl(name@, module@, m@),
{
    proof {
        reveal_strlit("impl");
        reveal_strlit("for");
    }
    let ig = set_impl_generics(&m.lifetimes, &m.aux_params);
    let e0: Vec<Tok> = Vec::new();
    assert(toks_view(e0@) =~= Seq::<SpecTok>::empty());
    let unit = vec![ident("for"), Tok::Group(Delimiter::Parenthesis, e0)];
    let ghost uv = seq![SpecTok::Ident("for"@), SpecTok::Group(Delimiter::Parenthesis, Seq::<SpecTok>::empty())];
    assert(toks_view(unit@) =~= uv);
    let mut r = vec![ident("impl")];
    assert(toks_view(r@) =~= seq![SpecTok::Ident("impl"@)]);
    append_toks(&mut r, &ig);
    append_toks(&mut r, &sealed_path(module, &m.selection_args));
    append_toks(&mut r, &unit);
    append_toks(&mut r, &m.where_clause);
    let e1: Vec<Tok> = Vec::new();
    assert(toks_view(e1@) =~= Seq::<SpecTok>::empty());
    let mid = vec![Tok::Group(Delimiter::Brace, e1), ident("impl")];
    assert(toks_view(mid@) =~= seq![SpecTok::Group(Delimiter::Brace, Seq::<SpecTok>::empty()), SpecTok::Ident("impl"@)]);
    append_toks(&mut r, &mid);
    append_toks(&mut r, &ig);
    let nm = vec![ident(name), Tok::Punct('<', false)];
    assert(toks_view(nm@) =~= seq![SpecTok::Ident(name@), SpecTok::Punct('<', false)]);
    append_toks(&mut r, &nm);
    append_toks(&mut r, &m.selection_args);
    let gt = vec![Tok::Punct('>', false)];
    assert(toks_view(gt@) =~= seq![SpecTok::Punct('>', false)]);
    append_toks(&mut r, &gt);
    append_toks(&mut r, &unit);
    append_toks(&mut r, &m.where_clause);
    let mut items: Vec<Tok> = Vec::new();
    append_toks(&mut items, &m.items);
    let ghost iv = toks_view(items@);
    assert(iv =~= toks_view(m.items@));
    let body = vec![Tok::Group(Delimiter::Brace, items)];
    assert(toks_view(body@) =~= seq![SpecTok::Group(Delimiter::Brace, iv)]);
    append_toks(&mut r, &body);
    r
}

/// The tokens of a dispatch set (see `spec_dispatch_set`), from the trait's
/// name, its sealed module's name, the trait's parameters, where clause and
/// arguments, the trait's items, and each selection's impls.
pub fn gen_dispatch_set(
    trait_name: &str,
    sealed_module: &str,
    trait_params: &Vec<Tok>,
    trait_where: &Vec<Tok>,
    trait_args: &Vec<Tok>,
    trait_items: &Vec<Tok>,
    impls: &Vec<DispatchSetImpl>,
) -> (r: Vec<Tok>)
    ensures
        toks_view(r@) == spec_dispatch_set(
            trait_name@,
            sealed_module@,
            toks_view(trait_params@),
            toks_view(trait_where@),
            toks_view(trait_args@),
            toks_view(trait_items@),
            set_impls_view(impls@),
        ),
{
    proof {
        reveal_strlit("mod");
        reveal_strlit("use");
        reveal_strlit("super");
        reveal_strlit("pub");
        reveal_strlit("trait");
        reveal_strlit("Sealed");
    }
    let mut decl: Vec<Tok> = Vec::new();
    assert(toks_view(decl@) =~= Seq::<SpecTok>::empty());
    if trait_params.len() > 0 {
        decl.push(Tok::Punct('<', false));
        assert(toks_view(decl@) =~= seq![SpecTok::Punct('<', false)]);
        append_toks(&mut decl, trait_params);
        let ghost d0 = toks_view(decl@);
        decl.push(Tok::Punct('>', false));
        assert(toks_view(decl@) =~= d0 + seq![SpecTok::Punct('>', false)]);
        assert(toks_view(decl@) =~= seq![SpecTok::Punct('<', false)] + toks_view(trait_params@) + seq![SpecTok::Punct('>', false)]);
    }
    let ghost dv = toks_view(decl@);
    assert(dv == spec_decl_generics(toks_view(trait_params@)));
    let mut inner = vec![
        ident("use"),
        ident("super"),
        Tok::Punct(':', true),
        Tok::Punct(':', false),
        Tok::Punct('*', false),
        Tok::Punct(';', false),
        ident("pub"),
        ident("trait"),
        ident("Sealed"),
    ];
    assert(toks_view(inner@) =~= seq![
        SpecTok::Ident("use"@),
        SpecTok::Ident("super"@),
        SpecTok::Punct(':', true),
        SpecTok::Punct(':', false),
        SpecTok::Punct('*', false),
        SpecTok::Punct(';', false),
        SpecTok::Ident("pub"@),
        SpecTok::Ident("trait"@),
        SpecTok::Ident("Sealed"@),
    ]);
    append_toks(&mut inner, &decl);
    append_toks(&mut inner, trait_where);
    let e0: Vec<Tok> = Vec::new();
    assert(toks_view(e0@) =~= Seq::<SpecTok>::empty());
    let ghost i0 = toks_view(inner@);
    inner.push(Tok::Group(Delimiter::Brace, e0));
    assert(toks_view(inner@) =~= i0 + seq![SpecTok::Group(Delimiter::Brace, Seq::<SpecTok>::empty())]);
    let ghost innerv = toks_view(inner@);
    let sup = vec![ident("super")];
    assert(toks_view(sup@) =~= seq![SpecTok::Ident("super"@)]);
    let mut out = vec![
        ident("mod"),
        ident(sealed_module),
        Tok::Group(Delimiter::Brace, inner),
        ident("pub"),
        Tok::Group(Delimiter::Parenthesis, sup),
        ident("trait"),
        ident(trait_name),
    ];
    assert(toks_view(out@) =~= seq![
        SpecTok::Ident("mod"@),
        SpecTok::Ident(sealed_module@),
        SpecTok::Group(Delimiter::Brace, innerv),
        SpecTok::Ident("pub"@),
        SpecTok::Group(Delimiter::Parenthesis, seq![SpecTok::Ident("super"@)]),
        SpecTok::Ident("trait"@),
        SpecTok::Ident(trait_name@),
    ]);
    append_toks(&mut out, &decl);
    let colon = vec![Tok::Punct(':', false)];
    assert(toks_view(colon@) =~= seq![SpecTok::Punct(':', false)]);
    append_toks(&mut out, &colon);
    append_toks(&mut out, &sealed_path(sealed_module, trait_args));
    append_toks(&mut out, trait_where);
    let mut items: Vec<Tok> = Vec::new();
    append_toks(&mut items, trait_items);
    let ghost itv = toks_view(items@);
    assert(itv =~= toks_view(trait_items@));
    let body = vec![Tok::Group(Delimiter::Brace, items)];
    assert(toks_view(body@) =~= seq![SpecTok::Group(Delimiter::Brace, itv)]);
    append_toks(&mut out, &body);
    let ghost head = toks_view(out@);
    let ghost ms = set_impls_view(impls@);
    let mut rest: Vec<Tok> = Vec::new();
    assert(toks_view(rest@) =~= Seq::<SpecTok>::empty());
    let mut i: usize = 0;
    while i < impls.len()
        invariant
            i <= impls@.len(),
            ms == set_impls_view(impls@),
            toks_view(rest@) == spec_set_impls(trait_name@, sealed_module@, ms, i as int),
        decreases impls@.len() - i,
    {
        append_toks(&mut rest, &set_impl(trait_name, sealed_module, &impls[i]));
        i = i + 1;
    }
    append_toks(&mut out, &rest);
    out
}

} // verus!
