//! Making the elided lifetimes of a signature explicit, the way the compiler
//! elides them, so that generated items can name them.
use vstd::prelude::*;
use crate::text::{chars_of, decimal, push_chars, spec_decimal, str_eq, string_of};
use crate::types::{
    Bound, GenericArg, PathArgs, PathSegment, QSelf, SpecArg, SpecArgs, SpecBound, SpecPath,
    SpecSegment, SpecTy, Ty, TyPath, bounds_view, generic_args_view, segments_view,
    strings_view, tys_view,
};
use crate::signature::{
    FnInput, FnSig, GenericParam, Receiver, SpecFnInput, SpecGenericParam, SpecReceiver, SpecSig,
    generics_view, inputs_view, opt_str_view,
};

verus! {

/// What the walk over the inputs has gathered: the lifetime parameters it
/// introduced, in order, and the candidate for the output's elided lifetimes.
pub struct SpecLifetimes {
    pub params: Seq<Seq<char>>,
    pub out: Option<Seq<char>>,
    pub multiple: bool,
    pub is_self: bool,
}

/// The state before any input has been looked at.
pub open spec fn spec_lifetimes_start() -> SpecLifetimes {
    SpecLifetimes { params: Seq::empty(), out: None, multiple: false, is_self: false }
}

/// The name of the `n`-th introduced lifetime parameter, `'__co3_n`.
pub open spec fn fresh_lifetime(n: nat) -> Seq<char> {
    "__co3_"@ + spec_decimal(n)
}

/// Notes that an input holds the lifetime `l` (`is_self` for the receiver's).
/// The first one becomes the candidate; a later receiver lifetime takes its
/// place; a later other lifetime clears it unless it came from the receiver.
pub open spec fn spec_record(st: SpecLifetimes, l: Seq<char>, is_self: bool) -> SpecLifetimes {
    if st.out is None {
        SpecLifetimes { out: Some(l), is_self, ..st }
    } else if is_self {
        SpecLifetimes { multiple: true, out: Some(l), is_self: true, ..st }
    } else if !st.is_self {
        SpecLifetimes { multiple: true, out: None, ..st }
    } else {
        SpecLifetimes { multiple: true, ..st }
    }
}

/// The lifetime that replaces `l` in an input: `'_` gets a fresh parameter,
/// a named one stays.
pub open spec fn spec_explicit(l: Seq<char>, st: SpecLifetimes) -> (Seq<char>, SpecLifetimes) {
    if l == "_"@ {
        let name = fresh_lifetime(st.params.len());
        (name, SpecLifetimes { params: st.params.push(name), ..st })
    } else {
        (l, st)
    }
}

/// A lifetime written in a type. On the inputs (`out` is `None`) it is made
/// explicit and recorded; on the output it becomes `out` if it is `'_`.
pub open spec fn spec_visit_lifetime(l: Seq<char>, out: Option<Seq<char>>, st: SpecLifetimes) -> (
    Seq<char>,
    SpecLifetimes,
) {
    match out {
        Some(o) => (if l == "_"@ {
            o
        } else {
            l
        }, st),
        None => {
            let (l1, st1) = spec_explicit(l, st);
            (l1, spec_record(st1, l1, false))
        },
    }
}

/// The lifetimes of a `for<...>` binder, the first `n` of them.
pub open spec fn spec_walk_binder(s: Seq<Seq<char>>, n: int, out: Option<Seq<char>>, st: SpecLifetimes) -> (
    Seq<Seq<char>>,
    SpecLifetimes,
)
    decreases n,
{
    if n <= 0 || n > s.len() {
        (Seq::empty(), st)
    } else {
        let (a, st1) = spec_walk_binder(s, n - 1, out, st);
        let (l, st2) = spec_visit_lifetime(s[n - 1], out, st1);
        (a.push(l), st2)
    }
}

/// Visits every lifetime of a type in the order they are written, except
/// inside function pointer types, which elide on their own. A reference
/// without a lifetime is taken as `&'_`.
pub open spec fn spec_walk_ty(t: SpecTy, out: Option<Seq<char>>, st: SpecLifetimes) -> (
    SpecTy,
    SpecLifetimes,
)
    decreases t, 0int,
{
    match t {
        SpecTy::Path(p) => {
            let (p1, st1) = spec_walk_path(p, out, st);
            (SpecTy::Path(p1), st1)
        },
        SpecTy::Reference { lifetime, mutable, elem } => {
            let l0 = match lifetime {
                Some(l) => l,
                None => "_"@,
            };
            let (l1, st1) = spec_visit_lifetime(l0, out, st);
            let (e, st2) = spec_walk_ty(*elem, out, st1);
            (SpecTy::Reference { lifetime: Some(l1), mutable, elem: Box::new(e) }, st2)
        },
        SpecTy::Ptr { mutable, elem } => {
            let (e, st1) = spec_walk_ty(*elem, out, st);
            (SpecTy::Ptr { mutable, elem: Box::new(e) }, st1)
        },
        SpecTy::Slice(elem) => {
            let (e, st1) = spec_walk_ty(*elem, out, st);
            (SpecTy::Slice(Box::new(e)), st1)
        },
        SpecTy::Array { elem, len } => {
            let (e, st1) = spec_walk_ty(*elem, out, st);
            (SpecTy::Array { elem: Box::new(e), len }, st1)
        },
        SpecTy::Tuple(elems) => {
            let (es, st1) = spec_walk_tys(elems, elems.len() as int, out, st);
            (SpecTy::Tuple(es), st1)
        },
        SpecTy::ImplTrait { bounds, text } => {
            let (bs, st1) = spec_walk_bounds(bounds, bounds.len() as int, out, st);
            (SpecTy::ImplTrait { bounds: bs, text }, st1)
        },
        SpecTy::TraitObject { bounds, text } => {
            let (bs, st1) = spec_walk_bounds(bounds, bounds.len() as int, out, st);
            (SpecTy::TraitObject { bounds: bs, text }, st1)
        },
        SpecTy::Paren { elem, text } => {
            let (e, st1) = spec_walk_ty(*elem, out, st);
            (SpecTy::Paren { elem: Box::new(e), text }, st1)
        },
        SpecTy::Group { elem, text } => {
            let (e, st1) = spec_walk_ty(*elem, out, st);
            (SpecTy::Group { elem: Box::new(e), text }, st1)
        },
        _ => (t, st),
    }
}

/// The first `n` types, in order.
pub open spec fn spec_walk_tys(s: Seq<SpecTy>, n: int, out: Option<Seq<char>>, st: SpecLifetimes) -> (
    Seq<SpecTy>,
    SpecLifetimes,
)
    decreases s, n,
{
    if n <= 0 || n > s.len() {
        (Seq::empty(), st)
    } else {
        let (a, st1) = spec_walk_tys(s, n - 1, out, st);
        let (b, st2) = spec_walk_ty(s[n - 1], out, st1);
        (a.push(b), st2)
    }
}

/// A path: the qualified self type, then each segment's arguments.
pub open spec fn spec_walk_path(p: SpecPath, out: Option<Seq<char>>, st: SpecLifetimes) -> (
    SpecPath,
    SpecLifetimes,
)
    decreases p, 0int,
{
    let (q, st1) = match p.qself {
        Some(q) => {
            let (t, s1) = spec_walk_ty(*q.0, out, st);
            (Some((Box::new(t), q.1, q.2)), s1)
        },
        None => (None, st),
    };
    let (segs, st2) = spec_walk_segments(p.segments, p.segments.len() as int, out, st1);
    (SpecPath { qself: q, leading_colon: p.leading_colon, segments: segs }, st2)
}

/// The first `n` segments of a path.
pub open spec fn spec_walk_segments(
    s: Seq<SpecSegment>,
    n: int,
    out: Option<Seq<char>>,
    st: SpecLifetimes,
) -> (Seq<SpecSegment>, SpecLifetimes)
    decreases s, n,
{
    if n <= 0 || n > s.len() {
        (Seq::empty(), st)
    } else {
        let (a, st1) = spec_walk_segments(s, n - 1, out, st);
        let (args, st2) = spec_walk_args(s[n - 1].args, out, st1);
        (a.push(SpecSegment { ident: s[n - 1].ident, args }), st2)
    }
}

/// A segment's arguments.
pub open spec fn spec_walk_args(a: SpecArgs, out: Option<Seq<char>>, st: SpecLifetimes) -> (
    SpecArgs,
    SpecLifetimes,
)
    decreases a, 0int,
{
    match a {
        SpecArgs::Bare => (a, st),
        SpecArgs::Angle(args) => {
            let (r, st1) = spec_walk_arg_list(args, args.len() as int, out, st);
            (SpecArgs::Angle(r), st1)
        },
        SpecArgs::Parenthesized(inputs, output) => {
            let (ins, st1) = spec_walk_tys(inputs, inputs.len() as int, out, st);
            match output {
                Some(o) => {
                    let (t, st2) = spec_walk_ty(*o, out, st1);
                    (SpecArgs::Parenthesized(ins, Some(Box::new(t))), st2)
                },
                None => (SpecArgs::Parenthesized(ins, None), st1),
            }
        },
    }
}

/// The first `n` generic arguments.
pub open spec fn spec_walk_arg_list(s: Seq<SpecArg>, n: int, out: Option<Seq<char>>, st: SpecLifetimes) -> (
    Seq<SpecArg>,
    SpecLifetimes,
)
    decreases s, n,
{
    if n <= 0 || n > s.len() {
        (Seq::empty(), st)
    } else {
        let (a, st1) = spec_walk_arg_list(s, n - 1, out, st);
        let (b, st2) = spec_walk_arg(s[n - 1], out, st1);
        (a.push(b), st2)
    }
}

/// One generic argument.
pub open spec fn spec_walk_arg(a: SpecArg, out: Option<Seq<char>>, st: SpecLifetimes) -> (
    SpecArg,
    SpecLifetimes,
)
    decreases a, 0int,
{
    match a {
        SpecArg::Lifetime(l) => {
            let (l1, st1) = spec_visit_lifetime(l, out, st);
            (SpecArg::Lifetime(l1), st1)
        },
        SpecArg::Type(t) => {
            let (t1, st1) = spec_walk_ty(t, out, st);
            (SpecArg::Type(t1), st1)
        },
        SpecArg::AssocType(name, t) => {
            let (t1, st1) = spec_walk_ty(t, out, st);
            (SpecArg::AssocType(name, t1), st1)
        },
        SpecArg::Constraint(name, bounds) => {
            let (bs, st1) = spec_walk_bounds(bounds, bounds.len() as int, out, st);
            (SpecArg::Constraint(name, bs), st1)
        },
        _ => (a, st),
    }
}

/// The first `n` bounds.
pub open spec fn spec_walk_bounds(s: Seq<SpecBound>, n: int, out: Option<Seq<char>>, st: SpecLifetimes) -> (
    Seq<SpecBound>,
    SpecLifetimes,
)
    decreases s, n,
{
    if n <= 0 || n > s.len() {
        (Seq::empty(), st)
    } else {
        let (a, st1) = spec_walk_bounds(s, n - 1, out, st);
        let (b, st2) = spec_walk_bound(s[n - 1], out, st1);
        (a.push(b), st2)
    }
}

/// One bound: a trait bound's `for<...>` lifetimes and then its path, or a
/// lifetime bound.
pub open spec fn spec_walk_bound(b: SpecBound, out: Option<Seq<char>>, st: SpecLifetimes) -> (
    SpecBound,
    SpecLifetimes,
)
    decreases b, 0int,
{
    match b {
        SpecBound::Trait { maybe, binder, path } => {
            let (bl, st1) = spec_walk_binder(binder, binder.len() as int, out, st);
            let (p, st2) = spec_walk_path(path, out, st1);
            (SpecBound::Trait { maybe, binder: bl, path: p }, st2)
        },
        SpecBound::Lifetime(l) => {
            let (l1, st1) = spec_visit_lifetime(l, out, st);
            (SpecBound::Lifetime(l1), st1)
        },
        SpecBound::Other(_) => (b, st),
    }
}

/// One input: the receiver's lifetime (`&self` taken as `&'_ self`) is made
/// explicit and recorded as the receiver's; a typed receiver or parameter has
/// its type walked.
pub open spec fn spec_walk_input(i: SpecFnInput, st: SpecLifetimes) -> (SpecFnInput, SpecLifetimes) {
    match i {
        SpecFnInput::Receiver(SpecReceiver::Reference { lifetime, mutable }) => {
            let l0 = match lifetime {
                Some(l) => l,
                None => "_"@,
            };
            let (l1, st1) = spec_explicit(l0, st);
            (
                SpecFnInput::Receiver(SpecReceiver::Reference { lifetime: Some(l1), mutable }),
                spec_record(st1, l1, true),
            )
        },
        SpecFnInput::Receiver(SpecReceiver::Typed(t)) => {
            let (t1, st1) = spec_walk_ty(t, None, st);
            (SpecFnInput::Receiver(SpecReceiver::Typed(t1)), st1)
        },
        SpecFnInput::Receiver(SpecReceiver::Value) => (i, st),
        SpecFnInput::Typed { attrs, pat, ty } => {
            let (t1, st1) = spec_walk_ty(ty, None, st);
            (SpecFnInput::Typed { attrs, pat, ty: t1 }, st1)
        },
    }
}

/// The first `n` inputs, in order.
pub open spec fn spec_walk_inputs(s: Seq<SpecFnInput>, n: int, st: SpecLifetimes) -> (
    Seq<SpecFnInput>,
    SpecLifetimes,
)
    decreases n,
{
    if n <= 0 || n > s.len() {
        (Seq::empty(), st)
    } else {
        let (a, st1) = spec_walk_inputs(s, n - 1, st);
        let (b, st2) = spec_walk_input(s[n - 1], st1);
        (a.push(b), st2)
    }
}

/// The lifetime that the output's elided lifetimes take: the single input
/// lifetime, or the receiver's where there are several.
pub open spec fn spec_output_lifetime(st: SpecLifetimes) -> Option<Seq<char>> {
    if !st.multiple || st.is_self {
        st.out
    } else {
        None
    }
}

/// The lifetime parameters introduced, as generic parameters without bounds.
pub open spec fn spec_lifetime_params(names: Seq<Seq<char>>) -> Seq<SpecGenericParam> {
    Seq::new(
        names.len(),
        |i: int| SpecGenericParam::Lifetime { name: names[i], outlives: Seq::empty() },
    )
}

/// The signature with every elided input lifetime replaced by a fresh
/// parameter `'__co3_0`, `'__co3_1`, ... (appended to the generics in that
/// order), and the output's elided lifetimes given the lifetime that the
/// elision rules give them, where there is one.
pub open spec fn spec_explicitize(sig: SpecSig) -> SpecSig {
    let (inputs, st) = spec_walk_inputs(sig.inputs, sig.inputs.len() as int, spec_lifetimes_start());
    let output = match (sig.output, spec_output_lifetime(st)) {
        (Some(t), Some(l)) => Some(spec_walk_ty(t, Some(l), st).0),
        _ => sig.output,
    };
    SpecSig {
        generics: sig.generics + spec_lifetime_params(st.params),
        where_clause: sig.where_clause,
        inputs,
        output,
    }
}


// ---------------------------------------------------------------------------
// Laws.

/// Whether two states agree on what they say of the output's lifetime.
pub open spec fn same_record(a: SpecLifetimes, b: SpecLifetimes) -> bool {
    a.out == b.out && a.multiple == b.multiple && a.is_self == b.is_self
}

/// The state `st` with the parameters `p` in place of its own.
pub open spec fn with_params(st: SpecLifetimes, p: Seq<Seq<char>>) -> SpecLifetimes {
    SpecLifetimes { params: p, ..st }
}

/// Whether the candidate for the output's lifetime, if any, is a named one.
pub open spec fn named_out(st: SpecLifetimes) -> bool {
    st.out != Some("_"@)
}

proof fn lemma_fresh_is_named(n: nat)
    ensures
        fresh_lifetime(n) != "_"@,
{
    reveal_strlit("__co3_");
    reveal_strlit("_");
    assert(fresh_lifetime(n).len() > 1);
}

proof fn lemma_rewalk_explicit(l: Seq<char>, st: SpecLifetimes, st2: SpecLifetimes)
    ensures
        spec_explicit(l, st).0 != "_"@,
        spec_explicit(spec_explicit(l, st).0, st2) == (spec_explicit(l, st).0, st2),
{
    lemma_fresh_is_named(st.params.len());
}

proof fn lemma_walk_binder_len(s: Seq<Seq<char>>, n: int, o: Option<Seq<char>>, st: SpecLifetimes)
    requires
        0 <= n <= s.len(),
    ensures
        spec_walk_binder(s, n, o, st).0.len() == n,
    decreases n,
{
    if n > 0 {
        lemma_walk_binder_len(s, n - 1, o, st);
    }
}

proof fn lemma_walk_binder_prefix(s: Seq<Seq<char>>, s2: Seq<Seq<char>>, n: int, o: Option<Seq<char>>, st: SpecLifetimes)
    requires
        0 <= n <= s.len(),
        n <= s2.len(),
        forall|i: int| 0 <= i < n ==> s[i] == s2[i],
    ensures
        spec_walk_binder(s, n, o, st) == spec_walk_binder(s2, n, o, st),
    decreases n,
{
    if n > 0 {
        lemma_walk_binder_prefix(s, s2, n - 1, o, st);
    }
}

proof fn lemma_walk_tys_len(s: Seq<SpecTy>, n: int, o: Option<Seq<char>>, st: SpecLifetimes)
    requires
        0 <= n <= s.len(),
    ensures
        spec_walk_tys(s, n, o, st).0.len() == n,
    decreases n,
{
    if n > 0 {
        lemma_walk_tys_len(s, n - 1, o, st);
    }
}

proof fn lemma_walk_tys_prefix(s: Seq<SpecTy>, s2: Seq<SpecTy>, n: int, o: Option<Seq<char>>, st: SpecLifetimes)
    requires
        0 <= n <= s.len(),
        n <= s2.len(),
        forall|i: int| 0 <= i < n ==> s[i] == s2[i],
    ensures
        spec_walk_tys(s, n, o, st) == spec_walk_tys(s2, n, o, st),
    decreases n,
{
    if n > 0 {
        lemma_walk_tys_prefix(s, s2, n - 1, o, st);
    }
}

proof fn lemma_walk_segments_len(s: Seq<SpecSegment>, n: int, o: Option<Seq<char>>, st: SpecLifetimes)
    requires
        0 <= n <= s.len(),
    ensures
        spec_walk_segments(s, n, o, st).0.len() == n,
    decreases n,
{
    if n > 0 {
        lemma_walk_segments_len(s, n - 1, o, st);
    }
}

proof fn lemma_walk_segments_prefix(s: Seq<SpecSegment>, s2: Seq<SpecSegment>, n: int, o: Option<Seq<char>>, st: SpecLifetimes)
    requires
        0 <= n <= s.len(),
        n <= s2.len(),
        forall|i: int| 0 <= i < n ==> s[i] == s2[i],
    ensures
        spec_walk_segments(s, n, o, st) == spec_walk_segments(s2, n, o, st),
    decreases n,
{
    if n > 0 {
        lemma_walk_segments_prefix(s, s2, n - 1, o, st);
    }
}

proof fn lemma_walk_arg_list_len(s: Seq<SpecArg>, n: int, o: Option<Seq<char>>, st: SpecLifetimes)
    requires
        0 <= n <= s.len(),
    ensures
        spec_walk_arg_list(s, n, o, st).0.len() == n,
    decreases n,
{
    if n > 0 {
        lemma_walk_arg_list_len(s, n - 1, o, st);
    }
}

proof fn lemma_walk_arg_list_prefix(s: Seq<SpecArg>, s2: Seq<SpecArg>, n: int, o: Option<Seq<char>>, st: SpecLifetimes)
    requires
        0 <= n <= s.len(),
        n <= s2.len(),
        forall|i: int| 0 <= i < n ==> s[i] == s2[i],
    ensures
        spec_walk_arg_list(s, n, o, st) == spec_walk_arg_list(s2, n, o, st),
    decreases n,
{
    if n > 0 {
        lemma_walk_arg_list_prefix(s, s2, n - 1, o, st);
    }
}

proof fn lemma_walk_bounds_len(s: Seq<SpecBound>, n: int, o: Option<Seq<char>>, st: SpecLifetimes)
    requires
        0 <= n <= s.len(),
    ensures
        spec_walk_bounds(s, n, o, st).0.len() == n,
    decreases n,
{
    if n > 0 {
        lemma_walk_bounds_len(s, n - 1, o, st);
    }
}

proof fn lemma_walk_bounds_prefix(s: Seq<SpecBound>, s2: Seq<SpecBound>, n: int, o: Option<Seq<char>>, st: SpecLifetimes)
    requires
        0 <= n <= s.len(),
        n <= s2.len(),
        forall|i: int| 0 <= i < n ==> s[i] == s2[i],
    ensures
        spec_walk_bounds(s, n, o, st) == spec_walk_bounds(s2, n, o, st),
    decreases n,
{
    if n > 0 {
        lemma_walk_bounds_prefix(s, s2, n - 1, o, st);
    }
}

proof fn lemma_walk_inputs_len(s: Seq<SpecFnInput>, n: int, st: SpecLifetimes)
    requires
        0 <= n <= s.len(),
    ensures
        spec_walk_inputs(s, n, st).0.len() == n,
    decreases n,
{
    if n > 0 {
        lemma_walk_inputs_len(s, n - 1, st);
    }
}

proof fn lemma_walk_inputs_prefix(s: Seq<SpecFnInput>, s2: Seq<SpecFnInput>, n: int, st: SpecLifetimes)
    requires
        0 <= n <= s.len(),
        n <= s2.len(),
        forall|i: int| 0 <= i < n ==> s[i] == s2[i],
    ensures
        spec_walk_inputs(s, n, st) == spec_walk_inputs(s2, n, st),
    decreases n,
{
    if n > 0 {
        lemma_walk_inputs_prefix(s, s2, n - 1, st);
    }
}

/// What a second walk starts from, given the first walk's own start `st2`:
/// on the inputs the state is kept but for the parameters, on the output it
/// is handed through.
pub open spec fn rewalk_pre(out: Option<Seq<char>>, st: SpecLifetimes, st2: SpecLifetimes) -> bool {
    match out {
        None => same_record(st, st2),
        Some(l) => l != "_"@,
    }
}

/// The state a second walk ends in, where the first ended in `s1`.
pub open spec fn again(s1: SpecLifetimes, st2: SpecLifetimes, out: Option<Seq<char>>) -> SpecLifetimes {
    match out {
        None => with_params(s1, st2.params),
        Some(_) => st2,
    }
}

proof fn lemma_rewalk_visit(l: Seq<char>, out: Option<Seq<char>>, st: SpecLifetimes, st2: SpecLifetimes)
    requires
        rewalk_pre(out, st, st2),
    ensures
        ({
            let (l1, s1) = spec_visit_lifetime(l, out, st);
            &&& l1 != "_"@
            &&& spec_visit_lifetime(l1, out, st2) == (l1, again(s1, st2, out))
            &&& out is None && named_out(st) ==> named_out(s1)
        }),
{
    if out is None {
        lemma_rewalk_explicit(l, st, st2);
    }
}

proof fn lemma_rewalk_binder(s: Seq<Seq<char>>, n: int, out: Option<Seq<char>>, st: SpecLifetimes, st2: SpecLifetimes)
    requires
        0 <= n <= s.len(),
        rewalk_pre(out, st, st2),
    ensures
        ({
            let (r, s1) = spec_walk_binder(s, n, out, st);
            &&& spec_walk_binder(r, n, out, st2) == (r, again(s1, st2, out))
            &&& out is None && named_out(st) ==> named_out(s1)
        }),
    decreases n,
{
    if n > 0 {
        let (a, st1) = spec_walk_binder(s, n - 1, out, st);
        let (b, sb) = spec_visit_lifetime(s[n - 1], out, st1);
        lemma_rewalk_binder(s, n - 1, out, st, st2);
        lemma_walk_binder_len(s, n - 1, out, st);
        let r = a.push(b);
        lemma_walk_binder_prefix(a, r, n - 1, out, st2);
        lemma_rewalk_visit(s[n - 1], out, st1, again(st1, st2, out));
        assert(r[n - 1] == b);
    }
}

proof fn lemma_rewalk_ty(t: SpecTy, out: Option<Seq<char>>, st: SpecLifetimes, st2: SpecLifetimes)
    requires
        rewalk_pre(out, st, st2),
    ensures
        ({
            let (t1, s1) = spec_walk_ty(t, out, st);
            &&& spec_walk_ty(t1, out, st2) == (t1, again(s1, st2, out))
            &&& out is None && named_out(st) ==> named_out(s1)
        }),
    decreases t, 0int,
{
    match t {
        SpecTy::Path(p) => lemma_rewalk_path(p, out, st, st2),
        SpecTy::Reference { lifetime, mutable, elem } => {
            let l0 = match lifetime {
                Some(l) => l,
                None => "_"@,
            };
            lemma_rewalk_visit(l0, out, st, st2);
            let (l1, st1) = spec_visit_lifetime(l0, out, st);
            lemma_rewalk_ty(*elem, out, st1, again(st1, st2, out));
        },
        SpecTy::Ptr { mutable, elem } => lemma_rewalk_ty(*elem, out, st, st2),
        SpecTy::Slice(elem) => lemma_rewalk_ty(*elem, out, st, st2),
        SpecTy::Array { elem, len } => lemma_rewalk_ty(*elem, out, st, st2),
        SpecTy::Tuple(elems) => {
            lemma_rewalk_tys(elems, elems.len() as int, out, st, st2);
            lemma_walk_tys_len(elems, elems.len() as int, out, st);
        },
        SpecTy::ImplTrait { bounds, text } => {
            lemma_rewalk_bounds(bounds, bounds.len() as int, out, st, st2);
            lemma_walk_bounds_len(bounds, bounds.len() as int, out, st);
        },
        SpecTy::TraitObject { bounds, text } => {
            lemma_rewalk_bounds(bounds, bounds.len() as int, out, st, st2);
            lemma_walk_bounds_len(bounds, bounds.len() as int, out, st);
        },
        SpecTy::Paren { elem, text } => lemma_rewalk_ty(*elem, out, st, st2),
        SpecTy::Group { elem, text } => lemma_rewalk_ty(*elem, out, st, st2),
        _ => {},
    }
}

proof fn lemma_rewalk_tys(s: Seq<SpecTy>, n: int, out: Option<Seq<char>>, st: SpecLifetimes, st2: SpecLifetimes)
    requires
        0 <= n <= s.len(),
        rewalk_pre(out, st, st2),
    ensures
        ({
            let (r, s1) = spec_walk_tys(s, n, out, st);
            &&& spec_walk_tys(r, n, out, st2) == (r, again(s1, st2, out))
            &&& out is None && named_out(st) ==> named_out(s1)
        }),
    decreases s, n,
{
    if n > 0 {
        let (a, st1) = spec_walk_tys(s, n - 1, out, st);
        let (b, sb) = spec_walk_ty(s[n - 1], out, st1);
        lemma_rewalk_tys(s, n - 1, out, st, st2);
        lemma_walk_tys_len(s, n - 1, out, st);
        let r = a.push(b);
        lemma_walk_tys_prefix(a, r, n - 1, out, st2);
        lemma_rewalk_ty(s[n - 1], out, st1, again(st1, st2, out));
        assert(r[n - 1] == b);
    }
}

proof fn lemma_rewalk_path(p: SpecPath, out: Option<Seq<char>>, st: SpecLifetimes, st2: SpecLifetimes)
    requires
        rewalk_pre(out, st, st2),
    ensures
        ({
            let (p1, s1) = spec_walk_path(p, out, st);
            &&& spec_walk_path(p1, out, st2) == (p1, again(s1, st2, out))
            &&& out is None && named_out(st) ==> named_out(s1)
        }),
    decreases p, 0int,
{
    let n = p.segments.len() as int;
    lemma_walk_segments_len(p.segments, n, out, st);
    match p.qself {
        Some(q) => {
            lemma_rewalk_ty(*q.0, out, st, st2);
            let (t, s1) = spec_walk_ty(*q.0, out, st);
            lemma_rewalk_segments(p.segments, n, out, s1, again(s1, st2, out));
            lemma_walk_segments_len(p.segments, n, out, s1);
        },
        None => {
            lemma_rewalk_segments(p.segments, n, out, st, st2);
        },
    }
}

proof fn lemma_rewalk_segments(s: Seq<SpecSegment>, n: int, out: Option<Seq<char>>, st: SpecLifetimes, st2: SpecLifetimes)
    requires
        0 <= n <= s.len(),
        rewalk_pre(out, st, st2),
    ensures
        ({
            let (r, s1) = spec_walk_segments(s, n, out, st);
            &&& spec_walk_segments(r, n, out, st2) == (r, again(s1, st2, out))
            &&& out is None && named_out(st) ==> named_out(s1)
        }),
    decreases s, n,
{
    if n > 0 {
        let (a, st1) = spec_walk_segments(s, n - 1, out, st);
        let (args, sb) = spec_walk_args(s[n - 1].args, out, st1);
        lemma_rewalk_segments(s, n - 1, out, st, st2);
        lemma_walk_segments_len(s, n - 1, out, st);
        let b = SpecSegment { ident: s[n - 1].ident, args };
        let r = a.push(b);
        lemma_walk_segments_prefix(a, r, n - 1, out, st2);
        lemma_rewalk_args(s[n - 1].args, out, st1, again(st1, st2, out));
        assert(r[n - 1] == b);
    }
}

proof fn lemma_rewalk_args(a: SpecArgs, out: Option<Seq<char>>, st: SpecLifetimes, st2: SpecLifetimes)
    requires
        rewalk_pre(out, st, st2),
    ensures
        ({
            let (a1, s1) = spec_walk_args(a, out, st);
            &&& spec_walk_args(a1, out, st2) == (a1, again(s1, st2, out))
            &&& out is None && named_out(st) ==> named_out(s1)
        }),
    decreases a, 0int,
{
    match a {
        SpecArgs::Bare => {},
        SpecArgs::Angle(args) => {
            lemma_rewalk_arg_list(args, args.len() as int, out, st, st2);
            lemma_walk_arg_list_len(args, args.len() as int, out, st);
        },
        SpecArgs::Parenthesized(inputs, output) => {
            lemma_rewalk_tys(inputs, inputs.len() as int, out, st, st2);
            lemma_walk_tys_len(inputs, inputs.len() as int, out, st);
            let (ins, st1) = spec_walk_tys(inputs, inputs.len() as int, out, st);
            match output {
                Some(o) => lemma_rewalk_ty(*o, out, st1, again(st1, st2, out)),
                None => {},
            }
        },
    }
}

proof fn lemma_rewalk_arg_list(s: Seq<SpecArg>, n: int, out: Option<Seq<char>>, st: SpecLifetimes, st2: SpecLifetimes)
    requires
        0 <= n <= s.len(),
        rewalk_pre(out, st, st2),
    ensures
        ({
            let (r, s1) = spec_walk_arg_list(s, n, out, st);
            &&& spec_walk_arg_list(r, n, out, st2) == (r, again(s1, st2, out))
            &&& out is None && named_out(st) ==> named_out(s1)
        }),
    decreases s, n,
{
    if n > 0 {
        let (a, st1) = spec_walk_arg_list(s, n - 1, out, st);
        let (b, sb) = spec_walk_arg(s[n - 1], out, st1);
        lemma_rewalk_arg_list(s, n - 1, out, st, st2);
        lemma_walk_arg_list_len(s, n - 1, out, st);
        let r = a.push(b);
        lemma_walk_arg_list_prefix(a, r, n - 1, out, st2);
        lemma_rewalk_arg(s[n - 1], out, st1, again(st1, st2, out));
        assert(r[n - 1] == b);
    }
}

proof fn lemma_rewalk_arg(a: SpecArg, out: Option<Seq<char>>, st: SpecLifetimes, st2: SpecLifetimes)
    requires
        rewalk_pre(out, st, st2),
    ensures
        ({
            let (a1, s1) = spec_walk_arg(a, out, st);
            &&& spec_walk_arg(a1, out, st2) == (a1, again(s1, st2, out))
            &&& out is None && named_out(st) ==> named_out(s1)
        }),
    decreases a, 0int,
{
    match a {
        SpecArg::Lifetime(l) => lemma_rewalk_visit(l, out, st, st2),
        SpecArg::Type(t) => lemma_rewalk_ty(t, out, st, st2),
        SpecArg::AssocType(name, t) => lemma_rewalk_ty(t, out, st, st2),
        SpecArg::Constraint(name, bounds) => {
            lemma_rewalk_bounds(bounds, bounds.len() as int, out, st, st2);
            lemma_walk_bounds_len(bounds, bounds.len() as int, out, st);
        },
        _ => {},
    }
}

proof fn lemma_rewalk_bounds(s: Seq<SpecBound>, n: int, out: Option<Seq<char>>, st: SpecLifetimes, st2: SpecLifetimes)
    requires
        0 <= n <= s.len(),
        rewalk_pre(out, st, st2),
    ensures
        ({
            let (r, s1) = spec_walk_bounds(s, n, out, st);
            &&& spec_walk_bounds(r, n, out, st2) == (r, again(s1, st2, out))
            &&& out is None && named_out(st) ==> named_out(s1)
        }),
    decreases s, n,
{
    if n > 0 {
        let (a, st1) = spec_walk_bounds(s, n - 1, out, st);
        let (b, sb) = spec_walk_bound(s[n - 1], out, st1);
        lemma_rewalk_bounds(s, n - 1, out, st, st2);
        lemma_walk_bounds_len(s, n - 1, out, st);
        let r = a.push(b);
        lemma_walk_bounds_prefix(a, r, n - 1, out, st2);
        lemma_rewalk_bound(s[n - 1], out, st1, again(st1, st2, out));
        assert(r[n - 1] == b);
    }
}

proof fn lemma_rewalk_bound(b: SpecBound, out: Option<Seq<char>>, st: SpecLifetimes, st2: SpecLifetimes)
    requires
        rewalk_pre(out, st, st2),
    ensures
        ({
            let (b1, s1) = spec_walk_bound(b, out, st);
            &&& spec_walk_bound(b1, out, st2) == (b1, again(s1, st2, out))
            &&& out is None && named_out(st) ==> named_out(s1)
        }),
    decreases b, 0int,
{
    match b {
        SpecBound::Trait { maybe, binder, path } => {
            let n = binder.len() as int;
            lemma_rewalk_binder(binder, n, out, st, st2);
            lemma_walk_binder_len(binder, n, out, st);
            let (bl, st1) = spec_walk_binder(binder, n, out, st);
            lemma_rewalk_path(path, out, st1, again(st1, st2, out));
        },
        SpecBound::Lifetime(l) => lemma_rewalk_visit(l, out, st, st2),
        SpecBound::Other(_) => {},
    }
}

proof fn lemma_rewalk_input(i: SpecFnInput, st: SpecLifetimes, st2: SpecLifetimes)
    requires
        same_record(st, st2),
    ensures
        ({
            let (i1, s1) = spec_walk_input(i, st);
            &&& spec_walk_input(i1, st2) == (i1, with_params(s1, st2.params))
            &&& named_out(st) ==> named_out(s1)
        }),
{
    match i {
        SpecFnInput::Receiver(SpecReceiver::Reference { lifetime, mutable }) => {
            let l0 = match lifetime {
                Some(l) => l,
                None => "_"@,
            };
            lemma_rewalk_explicit(l0, st, st2);
        },
        SpecFnInput::Receiver(SpecReceiver::Typed(t)) => lemma_rewalk_ty(t, None, st, st2),
        SpecFnInput::Receiver(SpecReceiver::Value) => {},
        SpecFnInput::Typed { attrs, pat, ty } => lemma_rewalk_ty(ty, None, st, st2),
    }
}

proof fn lemma_rewalk_inputs(s: Seq<SpecFnInput>, n: int, st: SpecLifetimes, st2: SpecLifetimes)
    requires
        0 <= n <= s.len(),
        same_record(st, st2),
    ensures
        ({
            let (r, s1) = spec_walk_inputs(s, n, st);
            &&& spec_walk_inputs(r, n, st2) == (r, with_params(s1, st2.params))
            &&& named_out(st) ==> named_out(s1)
        }),
    decreases n,
{
    if n > 0 {
        let (a, st1) = spec_walk_inputs(s, n - 1, st);
        let (b, sb) = spec_walk_input(s[n - 1], st1);
        lemma_rewalk_inputs(s, n - 1, st, st2);
        lemma_walk_inputs_len(s, n - 1, st);
        let r = a.push(b);
        lemma_walk_inputs_prefix(a, r, n - 1, st2);
        lemma_rewalk_input(s[n - 1], st1, with_params(st1, st2.params));
        assert(r[n - 1] == b);
    }
}

/// Whether the introduced parameters are `'__co3_0`, `'__co3_1`, ... in
/// order.
pub open spec fn fresh_numbered(params: Seq<Seq<char>>) -> bool {
    forall|i: int| 0 <= i < params.len() ==> #[trigger] params[i] == fresh_lifetime(i as nat)
}

proof fn lemma_fresh_explicit(l: Seq<char>, st: SpecLifetimes)
    requires
        fresh_numbered(st.params),
    ensures
        fresh_numbered(spec_explicit(l, st).1.params),
        fresh_numbered(spec_record(spec_explicit(l, st).1, spec_explicit(l, st).0, true).params),
        fresh_numbered(spec_record(spec_explicit(l, st).1, spec_explicit(l, st).0, false).params),
{
    let p2 = spec_explicit(l, st).1.params;
    assert forall|i: int| 0 <= i < p2.len() implies #[trigger] p2[i] == fresh_lifetime(i as nat) by {
        if i < st.params.len() {
            assert(p2[i] == st.params[i]);
        }
    }
}

proof fn lemma_fresh_visit(l: Seq<char>, out: Option<Seq<char>>, st: SpecLifetimes)
    requires
        fresh_numbered(st.params),
    ensures
        fresh_numbered(spec_visit_lifetime(l, out, st).1.params),
{
    lemma_fresh_explicit(l, st);
}

proof fn lemma_fresh_binder(s: Seq<Seq<char>>, n: int, out: Option<Seq<char>>, st: SpecLifetimes)
    requires
        fresh_numbered(st.params),
    ensures
        fresh_numbered(spec_walk_binder(s, n, out, st).1.params),
    decreases n,
{
    if n > 0 && n <= s.len() {
        lemma_fresh_binder(s, n - 1, out, st);
        lemma_fresh_visit(s[n - 1], out, spec_walk_binder(s, n - 1, out, st).1);
    }
}

proof fn lemma_fresh_ty(t: SpecTy, out: Option<Seq<char>>, st: SpecLifetimes)
    requires
        fresh_numbered(st.params),
    ensures
        fresh_numbered(spec_walk_ty(t, out, st).1.params),
    decreases t, 0int,
{
    match t {
        SpecTy::Path(p) => lemma_fresh_path(p, out, st),
        SpecTy::Reference { lifetime, mutable, elem } => {
            let l0 = match lifetime {
                Some(l) => l,
                None => "_"@,
            };
            lemma_fresh_visit(l0, out, st);
            lemma_fresh_ty(*elem, out, spec_visit_lifetime(l0, out, st).1);
        },
        SpecTy::Ptr { mutable, elem } => lemma_fresh_ty(*elem, out, st),
        SpecTy::Slice(elem) => lemma_fresh_ty(*elem, out, st),
        SpecTy::Array { elem, len } => lemma_fresh_ty(*elem, out, st),
        SpecTy::Tuple(elems) => lemma_fresh_tys(elems, elems.len() as int, out, st),
        SpecTy::ImplTrait { bounds, text } => lemma_fresh_bounds(bounds, bounds.len() as int, out, st),
        SpecTy::TraitObject { bounds, text } => lemma_fresh_bounds(bounds, bounds.len() as int, out, st),
        SpecTy::Paren { elem, text } => lemma_fresh_ty(*elem, out, st),
        SpecTy::Group { elem, text } => lemma_fresh_ty(*elem, out, st),
        _ => {},
    }
}

proof fn lemma_fresh_tys(s: Seq<SpecTy>, n: int, out: Option<Seq<char>>, st: SpecLifetimes)
    requires
        fresh_numbered(st.params),
    ensures
        fresh_numbered(spec_walk_tys(s, n, out, st).1.params),
    decreases s, n,
{
    if n > 0 && n <= s.len() {
        lemma_fresh_tys(s, n - 1, out, st);
        lemma_fresh_ty(s[n - 1], out, spec_walk_tys(s, n - 1, out, st).1);
    }
}

proof fn lemma_fresh_path(p: SpecPath, out: Option<Seq<char>>, st: SpecLifetimes)
    requires
        fresh_numbered(st.params),
    ensures
        fresh_numbered(spec_walk_path(p, out, st).1.params),
    decreases p, 0int,
{
    let n = p.segments.len() as int;
    match p.qself {
        Some(q) => {
            lemma_fresh_ty(*q.0, out, st);
            lemma_fresh_segments(p.segments, n, out, spec_walk_ty(*q.0, out, st).1);
        },
        None => lemma_fresh_segments(p.segments, n, out, st),
    }
}

proof fn lemma_fresh_segments(s: Seq<SpecSegment>, n: int, out: Option<Seq<char>>, st: SpecLifetimes)
    requires
        fresh_numbered(st.params),
    ensures
        fresh_numbered(spec_walk_segments(s, n, out, st).1.params),
    decreases s, n,
{
    if n > 0 && n <= s.len() {
        lemma_fresh_segments(s, n - 1, out, st);
        lemma_fresh_args(s[n - 1].args, out, spec_walk_segments(s, n - 1, out, st).1);
    }
}

proof fn lemma_fresh_args(a: SpecArgs, out: Option<Seq<char>>, st: SpecLifetimes)
    requires
        fresh_numbered(st.params),
    ensures
        fresh_numbered(spec_walk_args(a, out, st).1.params),
    decreases a, 0int,
{
    match a {
        SpecArgs::Bare => {},
        SpecArgs::Angle(args) => lemma_fresh_arg_list(args, args.len() as int, out, st),
        SpecArgs::Parenthesized(inputs, output) => {
            lemma_fresh_tys(inputs, inputs.len() as int, out, st);
            let st1 = spec_walk_tys(inputs, inputs.len() as int, out, st).1;
            match output {
                Some(o) => lemma_fresh_ty(*o, out, st1),
                None => {},
            }
        },
    }
}

proof fn lemma_fresh_arg_list(s: Seq<SpecArg>, n: int, out: Option<Seq<char>>, st: SpecLifetimes)
    requires
        fresh_numbered(st.params),
    ensures
        fresh_numbered(spec_walk_arg_list(s, n, out, st).1.params),
    decreases s, n,
{
    if n > 0 && n <= s.len() {
        lemma_fresh_arg_list(s, n - 1, out, st);
        lemma_fresh_arg(s[n - 1], out, spec_walk_arg_list(s, n - 1, out, st).1);
    }
}

proof fn lemma_fresh_arg(a: SpecArg, out: Option<Seq<char>>, st: SpecLifetimes)
    requires
        fresh_numbered(st.params),
    ensures
        fresh_numbered(spec_walk_arg(a, out, st).1.params),
    decreases a, 0int,
{
    match a {
        SpecArg::Lifetime(l) => lemma_fresh_visit(l, out, st),
        SpecArg::Type(t) => lemma_fresh_ty(t, out, st),
        SpecArg::AssocType(name, t) => lemma_fresh_ty(t, out, st),
        SpecArg::Constraint(name, bounds) => lemma_fresh_bounds(bounds, bounds.len() as int, out, st),
        _ => {},
    }
}

proof fn lemma_fresh_bounds(s: Seq<SpecBound>, n: int, out: Option<Seq<char>>, st: SpecLifetimes)
    requires
        fresh_numbered(st.params),
    ensures
        fresh_numbered(spec_walk_bounds(s, n, out, st).1.params),
    decreases s, n,
{
    if n > 0 && n <= s.len() {
        lemma_fresh_bounds(s, n - 1, out, st);
        lemma_fresh_bound(s[n - 1], out, spec_walk_bounds(s, n - 1, out, st).1);
    }
}

proof fn lemma_fresh_bound(b: SpecBound, out: Option<Seq<char>>, st: SpecLifetimes)
    requires
        fresh_numbered(st.params),
    ensures
        fresh_numbered(spec_walk_bound(b, out, st).1.params),
    decreases b, 0int,
{
    match b {
        SpecBound::Trait { maybe, binder, path } => {
            lemma_fresh_binder(binder, binder.len() as int, out, st);
            lemma_fresh_path(path, out, spec_walk_binder(binder, binder.len() as int, out, st).1);
        },
        SpecBound::Lifetime(l) => lemma_fresh_visit(l, out, st),
        SpecBound::Other(_) => {},
    }
}

proof fn lemma_fresh_input(i: SpecFnInput, st: SpecLifetimes)
    requires
        fresh_numbered(st.params),
    ensures
        fresh_numbered(spec_walk_input(i, st).1.params),
{
    match i {
        SpecFnInput::Receiver(SpecReceiver::Reference { lifetime, mutable }) => {
            let l0 = match lifetime {
                Some(l) => l,
                None => "_"@,
            };
            lemma_fresh_explicit(l0, st);
        },
        SpecFnInput::Receiver(SpecReceiver::Typed(t)) => lemma_fresh_ty(t, None, st),
        SpecFnInput::Receiver(SpecReceiver::Value) => {},
        SpecFnInput::Typed { attrs, pat, ty } => lemma_fresh_ty(ty, None, st),
    }
}

proof fn lemma_fresh_inputs(s: Seq<SpecFnInput>, n: int, st: SpecLifetimes)
    requires
        fresh_numbered(st.params),
    ensures
        fresh_numbered(spec_walk_inputs(s, n, st).1.params),
    decreases n,
{
    if n > 0 && n <= s.len() {
        lemma_fresh_inputs(s, n - 1, st);
        lemma_fresh_input(s[n - 1], spec_walk_inputs(s, n - 1, st).1);
    }
}

/// The receiver's lifetime, once recorded, is the candidate for good:
/// a state that came from the receiver names a candidate.
pub open spec fn kept_inv(st: SpecLifetimes) -> bool {
    st.is_self ==> st.out is Some
}

/// Walking from `st` to `r` keeps the invariant, and keeps a candidate that
/// came from the receiver.
pub open spec fn kept_after(st: SpecLifetimes, r: SpecLifetimes) -> bool {
    &&& kept_inv(r)
    &&& st.is_self ==> r.is_self && r.out == st.out
}

proof fn lemma_keep_visit(l: Seq<char>, out: Option<Seq<char>>, st: SpecLifetimes)
    requires
        kept_inv(st),
    ensures
        kept_after(st, spec_visit_lifetime(l, out, st).1),
{
}

proof fn lemma_keep_binder(s: Seq<Seq<char>>, n: int, out: Option<Seq<char>>, st: SpecLifetimes)
    requires
        kept_inv(st),
    ensures
        kept_after(st, spec_walk_binder(s, n, out, st).1),
    decreases n,
{
    if n > 0 && n <= s.len() {
        lemma_keep_binder(s, n - 1, out, st);
        lemma_keep_visit(s[n - 1], out, spec_walk_binder(s, n - 1, out, st).1);
    }
}

proof fn lemma_keep_ty(t: SpecTy, out: Option<Seq<char>>, st: SpecLifetimes)
    requires
        kept_inv(st),
    ensures
        kept_after(st, spec_walk_ty(t, out, st).1),
    decreases t, 0int,
{
    match t {
        SpecTy::Path(p) => lemma_keep_path(p, out, st),
        SpecTy::Reference { lifetime, mutable, elem } => {
            let l0 = match lifetime {
                Some(l) => l,
                None => "_"@,
            };
            lemma_keep_visit(l0, out, st);
            lemma_keep_ty(*elem, out, spec_visit_lifetime(l0, out, st).1);
        },
        SpecTy::Ptr { mutable, elem } => lemma_keep_ty(*elem, out, st),
        SpecTy::Slice(elem) => lemma_keep_ty(*elem, out, st),
        SpecTy::Array { elem, len } => lemma_keep_ty(*elem, out, st),
        SpecTy::Tuple(elems) => lemma_keep_tys(elems, elems.len() as int, out, st),
        SpecTy::ImplTrait { bounds, text } => lemma_keep_bounds(bounds, bounds.len() as int, out, st),
        SpecTy::TraitObject { bounds, text } => lemma_keep_bounds(bounds, bounds.len() as int, out, st),
        SpecTy::Paren { elem, text } => lemma_keep_ty(*elem, out, st),
        SpecTy::Group { elem, text } => lemma_keep_ty(*elem, out, st),
        _ => {},
    }
}

proof fn lemma_keep_tys(s: Seq<SpecTy>, n: int, out: Option<Seq<char>>, st: SpecLifetimes)
    requires
        kept_inv(st),
    ensures
        kept_after(st, spec_walk_tys(s, n, out, st).1),
    decreases s, n,
{
    if n > 0 && n <= s.len() {
        lemma_keep_tys(s, n - 1, out, st);
        lemma_keep_ty(s[n - 1], out, spec_walk_tys(s, n - 1, out, st).1);
    }
}

proof fn lemma_keep_path(p: SpecPath, out: Option<Seq<char>>, st: SpecLifetimes)
    requires
        kept_inv(st),
    ensures
        kept_after(st, spec_walk_path(p, out, st).1),
    decreases p, 0int,
{
    let n = p.segments.len() as int;
    match p.qself {
        Some(q) => {
            lemma_keep_ty(*q.0, out, st);
            lemma_keep_segments(p.segments, n, out, spec_walk_ty(*q.0, out, st).1);
        },
        None => lemma_keep_segments(p.segments, n, out, st),
    }
}

proof fn lemma_keep_segments(s: Seq<SpecSegment>, n: int, out: Option<Seq<char>>, st: SpecLifetimes)
    requires
        kept_inv(st),
    ensures
        kept_after(st, spec_walk_segments(s, n, out, st).1),
    decreases s, n,
{
    if n > 0 && n <= s.len() {
        lemma_keep_segments(s, n - 1, out, st);
        lemma_keep_args(s[n - 1].args, out, spec_walk_segments(s, n - 1, out, st).1);
    }
}

proof fn lemma_keep_args(a: SpecArgs, out: Option<Seq<char>>, st: SpecLifetimes)
    requires
        kept_inv(st),
    ensures
        kept_after(st, spec_walk_args(a, out, st).1),
    decreases a, 0int,
{
    match a {
        SpecArgs::Bare => {},
        SpecArgs::Angle(args) => lemma_keep_arg_list(args, args.len() as int, out, st),
        SpecArgs::Parenthesized(inputs, output) => {
            lemma_keep_tys(inputs, inputs.len() as int, out, st);
            let st1 = spec_walk_tys(inputs, inputs.len() as int, out, st).1;
            match output {
                Some(o) => lemma_keep_ty(*o, out, st1),
                None => {},
            }
        },
    }
}

proof fn lemma_keep_arg_list(s: Seq<SpecArg>, n: int, out: Option<Seq<char>>, st: SpecLifetimes)
    requires
        kept_inv(st),
    ensures
        kept_after(st, spec_walk_arg_list(s, n, out, st).1),
    decreases s, n,
{
    if n > 0 && n <= s.len() {
        lemma_keep_arg_list(s, n - 1, out, st);
        lemma_keep_arg(s[n - 1], out, spec_walk_arg_list(s, n - 1, out, st).1);
    }
}

proof fn lemma_keep_arg(a: SpecArg, out: Option<Seq<char>>, st: SpecLifetimes)
    requires
        kept_inv(st),
    ensures
        kept_after(st, spec_walk_arg(a, out, st).1),
    decreases a, 0int,
{
    match a {
        SpecArg::Lifetime(l) => lemma_keep_visit(l, out, st),
        SpecArg::Type(t) => lemma_keep_ty(t, out, st),
        SpecArg::AssocType(name, t) => lemma_keep_ty(t, out, st),
        SpecArg::Constraint(name, bounds) => lemma_keep_bounds(bounds, bounds.len() as int, out, st),
        _ => {},
    }
}

proof fn lemma_keep_bounds(s: Seq<SpecBound>, n: int, out: Option<Seq<char>>, st: SpecLifetimes)
    requires
        kept_inv(st),
    ensures
        kept_after(st, spec_walk_bounds(s, n, out, st).1),
    decreases s, n,
{
    if n > 0 && n <= s.len() {
        lemma_keep_bounds(s, n - 1, out, st);
        lemma_keep_bound(s[n - 1], out, spec_walk_bounds(s, n - 1, out, st).1);
    }
}

proof fn lemma_keep_bound(b: SpecBound, out: Option<Seq<char>>, st: SpecLifetimes)
    requires
        kept_inv(st),
    ensures
        kept_after(st, spec_walk_bound(b, out, st).1),
    decreases b, 0int,
{
    match b {
        SpecBound::Trait { maybe, binder, path } => {
            lemma_keep_binder(binder, binder.len() as int, out, st);
            lemma_keep_path(path, out, spec_walk_binder(binder, binder.len() as int, out, st).1);
        },
        SpecBound::Lifetime(l) => lemma_keep_visit(l, out, st),
        SpecBound::Other(_) => {},
    }
}

/// Whether the input is a receiver `&self` / `&'a self` (with `mut` or not).
pub open spec fn is_ref_receiver(i: SpecFnInput) -> bool {
    i matches SpecFnInput::Receiver(SpecReceiver::Reference { .. })
}

proof fn lemma_keep_input(i: SpecFnInput, st: SpecLifetimes)
    requires
        kept_inv(st),
        !is_ref_receiver(i),
    ensures
        kept_after(st, spec_walk_input(i, st).1),
{
    match i {
        SpecFnInput::Receiver(SpecReceiver::Typed(t)) => lemma_keep_ty(t, None, st),
        SpecFnInput::Typed { attrs, pat, ty } => lemma_keep_ty(ty, None, st),
        _ => {},
    }
}

proof fn lemma_keep_inputs(s: Seq<SpecFnInput>, n: int, st: SpecLifetimes)
    requires
        kept_inv(st),
        forall|i: int| 0 <= i < n && i < s.len() ==> !is_ref_receiver(#[trigger] s[i]),
    ensures
        kept_after(st, spec_walk_inputs(s, n, st).1),
    decreases n,
{
    if n > 0 && n <= s.len() {
        lemma_keep_inputs(s, n - 1, st);
        lemma_keep_input(s[n - 1], spec_walk_inputs(s, n - 1, st).1);
    }
}

proof fn lemma_receiver_candidate(s: Seq<SpecFnInput>, n: int, k: int, st: SpecLifetimes)
    requires
        kept_inv(st),
        0 <= k < n <= s.len(),
        is_ref_receiver(s[k]),
        forall|i: int| 0 <= i < s.len() && i != k ==> !is_ref_receiver(#[trigger] s[i]),
    ensures
        spec_walk_inputs(s, n, st).1.is_self,
        kept_inv(spec_walk_inputs(s, n, st).1),
        spec_walk_inputs(s, n, st).1.out == spec_walk_inputs(s, k + 1, st).0[k]->Receiver_0->lifetime,
    decreases n,
{
    if n == k + 1 {
        let st1 = spec_walk_inputs(s, k, st).1;
        lemma_keep_inputs(s, k, st);
        lemma_walk_inputs_len(s, k, st);
    } else {
        lemma_receiver_candidate(s, n - 1, k, st);
        let st1 = spec_walk_inputs(s, n - 1, st).1;
        lemma_keep_input(s[n - 1], st1);
    }
}

/// With a receiver `&self` or `&'a self` (and no other), the elided
/// lifetimes of the output take the receiver's lifetime, as made explicit:
/// `'a`, or the fresh parameter that `&self` was given.
pub proof fn lemma_explicitize_receiver_output(sig: SpecSig, k: int)
    requires
        0 <= k < sig.inputs.len(),
        is_ref_receiver(sig.inputs[k]),
        forall|i: int| 0 <= i < sig.inputs.len() && i != k ==> !is_ref_receiver(#[trigger] sig.inputs[i]),
    ensures
        ({
            let (inputs, st) = spec_walk_inputs(sig.inputs, sig.inputs.len() as int, spec_lifetimes_start());
            let l = inputs[k]->Receiver_0->lifetime;
            &&& l is Some
            &&& spec_explicitize(sig).inputs == inputs
            &&& spec_explicitize(sig).output == match sig.output {
                Some(t) => Some(spec_walk_ty(t, l, st).0),
                None => None,
            }
        }),
{
    let n = sig.inputs.len() as int;
    let st0 = spec_lifetimes_start();
    lemma_receiver_candidate(sig.inputs, n, k, st0);
    lemma_walk_inputs_len(sig.inputs, k + 1, st0);
    let pre = spec_walk_inputs(sig.inputs, k + 1, st0).0;
    let all = spec_walk_inputs(sig.inputs, n, st0).0;
    lemma_walk_inputs_prefix_of(sig.inputs, k + 1, n, st0);
    assert(all[k] == pre[k]);
}

proof fn lemma_walk_inputs_prefix_of(s: Seq<SpecFnInput>, m: int, n: int, st: SpecLifetimes)
    requires
        0 <= m <= n <= s.len(),
    ensures
        spec_walk_inputs(s, n, st).0.len() == n,
        forall|i: int| 0 <= i < m ==> #[trigger] spec_walk_inputs(s, n, st).0[i] == spec_walk_inputs(s, m, st).0[i],
    decreases n - m,
{
    lemma_walk_inputs_len(s, n, st);
    if m < n {
        lemma_walk_inputs_prefix_of(s, m, n - 1, st);
        lemma_walk_inputs_len(s, n - 1, st);
    }
}

/// The `n`-th introduced lifetime parameter, without bounds.
pub open spec fn fresh_param(n: nat) -> SpecGenericParam {
    SpecGenericParam::Lifetime { name: fresh_lifetime(n), outlives: Seq::empty() }
}

/// Making the elided lifetimes explicit keeps the where clause, and keeps
/// the generic parameters first; after them come the introduced lifetime
/// parameters `'__co3_0`, `'__co3_1`, ..., numbered in the order the elided
/// input lifetimes are met, without bounds.
pub proof fn lemma_explicitize_numbering(sig: SpecSig)
    ensures
        spec_explicitize(sig).where_clause == sig.where_clause,
        spec_explicitize(sig).generics.len() >= sig.generics.len(),
        spec_explicitize(sig).generics.subrange(0, sig.generics.len() as int) == sig.generics,
        forall|i: int|
            sig.generics.len() <= i < spec_explicitize(sig).generics.len() ==> #[trigger] spec_explicitize(sig).generics[i]
                == fresh_param((i - sig.generics.len()) as nat),
{
    let st = spec_walk_inputs(sig.inputs, sig.inputs.len() as int, spec_lifetimes_start()).1;
    lemma_fresh_inputs(sig.inputs, sig.inputs.len() as int, spec_lifetimes_start());
    let g = spec_explicitize(sig).generics;
    assert(g == sig.generics + spec_lifetime_params(st.params));
    assert(g.subrange(0, sig.generics.len() as int) =~= sig.generics);
    assert forall|i: int| sig.generics.len() <= i < g.len() implies #[trigger] g[i] == fresh_param(
        (i - sig.generics.len()) as nat,
    ) by {
        let k = i - sig.generics.len();
        assert(st.params[k] == fresh_lifetime(k as nat));
    }
}

/// Making the elided lifetimes explicit a second time changes nothing: the
/// inputs hold no `'_` any more, so no parameter is added, and the output's
/// lifetimes have already been given the one the inputs determine.
pub proof fn lemma_explicitize_idempotent(sig: SpecSig)
    ensures
        spec_explicitize(spec_explicitize(sig)) == spec_explicitize(sig),
{
    let n = sig.inputs.len() as int;
    let start = spec_lifetimes_start();
    let (inputs, st) = spec_walk_inputs(sig.inputs, n, start);
    lemma_walk_inputs_len(sig.inputs, n, start);
    lemma_rewalk_inputs(sig.inputs, n, start, start);
    let sig1 = spec_explicitize(sig);
    assert(sig1.inputs == inputs);
    let st2 = with_params(st, start.params);
    assert(spec_walk_inputs(sig1.inputs, sig1.inputs.len() as int, start) == (inputs, st2));
    assert(spec_output_lifetime(st2) == spec_output_lifetime(st));
    match (sig.output, spec_output_lifetime(st)) {
        (Some(t), Some(l)) => {
            assert(named_out(st));
            lemma_rewalk_ty(t, Some(l), st, st2);
        },
        _ => {},
    }
    assert(spec_lifetime_params(st2.params) =~= Seq::<SpecGenericParam>::empty());
    assert(sig1.generics + spec_lifetime_params(st2.params) =~= sig1.generics);
}

struct LifetimeCollector {
    params: Vec<String>,
    out: Option<String>,
    multiple: bool,
    is_self: bool,
}

impl View for LifetimeCollector {
    type V = SpecLifetimes;

    closed spec fn view(&self) -> SpecLifetimes {
        SpecLifetimes {
            params: strings_view(self.params@),
            out: opt_str_view(self.out),
            multiple: self.multiple,
            is_self: self.is_self,
        }
    }
}

fn record(st: &mut LifetimeCollector, l: String, is_self: bool)
    ensures
        final(st)@ == spec_record(old(st)@, l@, is_self),
{
    if st.out.is_none() {
        st.out = Some(l);
        st.is_self = is_self;
    } else {
        st.multiple = true;
        if is_self {
            st.out = Some(l);
            st.is_self = true;
        } else if !st.is_self {
            st.out = None;
        }
    }
}

fn fresh_lifetime_name(n: usize) -> (r: String)
    ensures
        r@ == fresh_lifetime(n as nat),
{
    let mut v = chars_of("__co3_");
    let d = decimal(n);
    push_chars(&mut v, &d);
    string_of(&v)
}

fn explicit(st: &mut LifetimeCollector, l: String) -> (r: String)
    ensures
        (r@, final(st)@) == spec_explicit(l@, old(st)@),
{
    if str_eq(l.as_str(), "_") {
        let name = fresh_lifetime_name(st.params.len());
        let ghost before = st.params@;
        st.params.push(name.clone());
        assert(strings_view(st.params@) =~= strings_view(before).push(name@));
        name
    } else {
        l
    }
}

fn visit_lifetime(l: String, out: &Option<String>, st: &mut LifetimeCollector) -> (r: String)
    ensures
        (r@, final(st)@) == spec_visit_lifetime(l@, opt_str_view(*out), old(st)@),
{
    match out {
        Some(o) => if str_eq(l.as_str(), "_") {
            o.clone()
        } else {
            l
        },
        None => {
            let l1 = explicit(st, l);
            record(st, l1.clone(), false);
            l1
        },
    }
}

#[verifier::loop_isolation(false)]
fn walk_binder(v: Vec<String>, out: &Option<String>, st: &mut LifetimeCollector) -> (r: Vec<String>)
    ensures
        (strings_view(r@), final(st)@) == spec_walk_binder(
            strings_view(v@),
            v@.len() as int,
            opt_str_view(*out),
            old(st)@,
        ),
{
    let ghost v0 = v@;
    let ghost sv = strings_view(v0);
    let ghost st0 = st@;
    let n = v.len();
    let mut v = v;
    let mut r: Vec<String> = Vec::new();
    let mut k: usize = 0;
    while k < n
        invariant
            k <= n,
            n == v0.len(),
            sv == strings_view(v0),
            v@ == v0.subrange(k as int, n as int),
            (strings_view(r@), st@) == spec_walk_binder(sv, k as int, opt_str_view(*out), st0),
        decreases n - k,
    {
        let ghost r0 = r@;
        let e = v.remove(0);
        assert(e == v0[k as int]);
        let e1 = visit_lifetime(e, out, st);
        r.push(e1);
        k = k + 1;
        assert(strings_view(r@) =~= strings_view(r0).push(e1@));
        assert(v@ =~= v0.subrange(k as int, n as int));
    }
    r
}

fn walk_ty(t: Ty, out: &Option<String>, st: &mut LifetimeCollector) -> (r: Ty)
    ensures
        (r@, final(st)@) == spec_walk_ty(t@, opt_str_view(*out), old(st)@),
    decreases t, 0int,
{
    let ghost t0 = t;
    match t {
        Ty::Path(p) => {
            proof {
                assert(decreases_to!(t0 => t0->Path_0));
            }
            let p1 = walk_path(p, out, st);
            Ty::Path(p1)
        },
        Ty::Reference { lifetime, mutable, elem } => {
            proof {
                assert(decreases_to!(t0 => t0->Reference_elem));
            }
            let l0 = match lifetime {
                Some(l) => l,
                None => String::from_str("_"),
            };
            let l1 = visit_lifetime(l0, out, st);
            let e = walk_ty(*elem, out, st);
            Ty::Reference { lifetime: Some(l1), mutable, elem: Box::new(e) }
        },
        Ty::Ptr { mutable, elem } => {
            proof {
                assert(decreases_to!(t0 => t0->Ptr_elem));
            }
            let e = walk_ty(*elem, out, st);
            Ty::Ptr { mutable, elem: Box::new(e) }
        },
        Ty::Slice(elem) => {
            proof {
                assert(decreases_to!(t0 => t0->Slice_0));
            }
            let e = walk_ty(*elem, out, st);
            Ty::Slice(Box::new(e))
        },
        Ty::Array { elem, len } => {
            proof {
                assert(decreases_to!(t0 => t0->Array_elem));
            }
            let e = walk_ty(*elem, out, st);
            Ty::Array { elem: Box::new(e), len }
        },
        Ty::Tuple(elems) => {
            proof {
                assert(decreases_to!(t0 => t0->Tuple_0));
            }
            let es = walk_tys(elems, out, st);
            Ty::Tuple(es)
        },
        Ty::ImplTrait { bounds, text } => {
            proof {
                assert(decreases_to!(t0 => t0->ImplTrait_bounds));
            }
            let bs = walk_bounds(bounds, out, st);
            Ty::ImplTrait { bounds: bs, text }
        },
        Ty::TraitObject { bounds, text } => {
            proof {
                assert(decreases_to!(t0 => t0->TraitObject_bounds));
            }
            let bs = walk_bounds(bounds, out, st);
            Ty::TraitObject { bounds: bs, text }
        },
        Ty::Paren { elem, text } => {
            proof {
                assert(decreases_to!(t0 => t0->Paren_elem));
            }
            let e = walk_ty(*elem, out, st);
            Ty::Paren { elem: Box::new(e), text }
        },
        Ty::Group { elem, text } => {
            proof {
                assert(decreases_to!(t0 => t0->Group_elem));
            }
            let e = walk_ty(*elem, out, st);
            Ty::Group { elem: Box::new(e), text }
        },
        Ty::FnPtr { binder, output, text } => Ty::FnPtr { binder, output, text },
        Ty::Infer => Ty::Infer,
        Ty::Other(text) => Ty::Other(text),
    }
}

#[verifier::loop_isolation(false)]
fn walk_tys(v: Vec<Ty>, out: &Option<String>, st: &mut LifetimeCollector) -> (r: Vec<Ty>)
    ensures
        (tys_view(r@), final(st)@) == spec_walk_tys(
            tys_view(v@),
            v@.len() as int,
            opt_str_view(*out),
            old(st)@,
        ),
    decreases v, 1int,
{
    let ghost v0 = v;
    let ghost sv = tys_view(v@);
    let ghost st0 = st@;
    let n = v.len();
    let mut v = v;
    let mut r: Vec<Ty> = Vec::new();
    let mut k: usize = 0;
    while k < n
        invariant
            k <= n,
            n == v0@.len(),
            sv == tys_view(v0@),
            v@ == v0@.subrange(k as int, n as int),
            (tys_view(r@), st@) == spec_walk_tys(sv, k as int, opt_str_view(*out), st0),
        decreases n - k,
    {
        let ghost r0 = r@;
        let e = v.remove(0);
        proof {
            assert(e == v0@[k as int]);
            assert(decreases_to!(v0 => v0@));
            assert(decreases_to!(v0@ => v0@[k as int]));
        }
        let e1 = walk_ty(e, out, st);
        r.push(e1);
        k = k + 1;
        assert(tys_view(r@) =~= tys_view(r0).push(e1@));
        assert(v@ =~= v0@.subrange(k as int, n as int));
    }
    r
}

fn walk_path(p: TyPath, out: &Option<String>, st: &mut LifetimeCollector) -> (r: TyPath)
    ensures
        (r@, final(st)@) == spec_walk_path(p@, opt_str_view(*out), old(st)@),
    decreases p, 0int,
{
    let ghost p0 = p;
    let TyPath { qself, leading_colon, segments } = p;
    let q = match qself {
        Some(q) => {
            proof {
                assert(decreases_to!(p0 => p0.qself));
                assert(decreases_to!(p0.qself => p0.qself->0));
                assert(decreases_to!(p0.qself->0 => p0.qself->0.ty));
            }
            let QSelf { ty, position, has_as } = q;
            let t = walk_ty(*ty, out, st);
            Some(QSelf { ty: Box::new(t), position, has_as })
        },
        None => None,
    };
    proof {
        assert(decreases_to!(p0 => p0.segments));
    }
    let segs = walk_segments(segments, out, st);
    TyPath { qself: q, leading_colon, segments: segs }
}

#[verifier::loop_isolation(false)]
fn walk_segments(v: Vec<PathSegment>, out: &Option<String>, st: &mut LifetimeCollector) -> (r: Vec<
    PathSegment,
>)
    ensures
        (segments_view(r@), final(st)@) == spec_walk_segments(
            segments_view(v@),
            v@.len() as int,
            opt_str_view(*out),
            old(st)@,
        ),
    decreases v, 1int,
{
    let ghost v0 = v;
    let ghost sv = segments_view(v@);
    let ghost st0 = st@;
    let n = v.len();
    let mut v = v;
    let mut r: Vec<PathSegment> = Vec::new();
    let mut k: usize = 0;
    while k < n
        invariant
            k <= n,
            n == v0@.len(),
            sv == segments_view(v0@),
            v@ == v0@.subrange(k as int, n as int),
            (segments_view(r@), st@) == spec_walk_segments(sv, k as int, opt_str_view(*out), st0),
        decreases n - k,
    {
        let ghost r0 = r@;
        let e = v.remove(0);
        proof {
            assert(e == v0@[k as int]);
            assert(decreases_to!(v0 => v0@));
            assert(decreases_to!(v0@ => v0@[k as int]));
            assert(decreases_to!(v0@[k as int] => v0@[k as int].args));
        }
        let PathSegment { ident, args } = e;
        let a1 = walk_args(args, out, st);
        let seg = PathSegment { ident, args: a1 };
        r.push(seg);
        k = k + 1;
        assert(segments_view(r@) =~= segments_view(r0).push(
            SpecSegment { ident: seg.ident@, args: a1@ },
        ));
        assert(v@ =~= v0@.subrange(k as int, n as int));
    }
    r
}

fn walk_args(a: PathArgs, out: &Option<String>, st: &mut LifetimeCollector) -> (r: PathArgs)
    ensures
        (r@, final(st)@) == spec_walk_args(a@, opt_str_view(*out), old(st)@),
    decreases a, 0int,
{
    let ghost a0 = a;
    match a {
        PathArgs::Bare => PathArgs::Bare,
        PathArgs::Angle(args) => {
            proof {
                assert(decreases_to!(a0 => a0->Angle_0));
            }
            let r = walk_arg_list(args, out, st);
            PathArgs::Angle(r)
        },
        PathArgs::Parenthesized(inputs, output) => {
            proof {
                assert(decreases_to!(a0 => a0->Parenthesized_0));
            }
            let ins = walk_tys(inputs, out, st);
            match output {
                Some(o) => {
                    proof {
                        assert(decreases_to!(a0 => a0->Parenthesized_1));
                        assert(decreases_to!(a0->Parenthesized_1 => a0->Parenthesized_1->0));
                    }
                    let t = walk_ty(*o, out, st);
                    PathArgs::Parenthesized(ins, Some(Box::new(t)))
                },
                None => PathArgs::Parenthesized(ins, None),
            }
        },
    }
}

#[verifier::loop_isolation(false)]
fn walk_arg_list(v: Vec<GenericArg>, out: &Option<String>, st: &mut LifetimeCollector) -> (r: Vec<
    GenericArg,
>)
    ensures
        (generic_args_view(r@), final(st)@) == spec_walk_arg_list(
            generic_args_view(v@),
            v@.len() as int,
            opt_str_view(*out),
            old(st)@,
        ),
    decreases v, 1int,
{
    let ghost v0 = v;
    let ghost sv = generic_args_view(v@);
    let ghost st0 = st@;
    let n = v.len();
    let mut v = v;
    let mut r: Vec<GenericArg> = Vec::new();
    let mut k: usize = 0;
    while k < n
        invariant
            k <= n,
            n == v0@.len(),
            sv == generic_args_view(v0@),
            v@ == v0@.subrange(k as int, n as int),
            (generic_args_view(r@), st@) == spec_walk_arg_list(sv, k as int, opt_str_view(*out), st0),
        decreases n - k,
    {
        let ghost r0 = r@;
        let e = v.remove(0);
        proof {
            assert(e == v0@[k as int]);
            assert(decreases_to!(v0 => v0@));
            assert(decreases_to!(v0@ => v0@[k as int]));
        }
        let e1 = walk_arg(e, out, st);
        r.push(e1);
        k = k + 1;
        assert(generic_args_view(r@) =~= generic_args_view(r0).push(e1@));
        assert(v@ =~= v0@.subrange(k as int, n as int));
    }
    r
}

fn walk_arg(a: GenericArg, out: &Option<String>, st: &mut LifetimeCollector) -> (r: GenericArg)
    ensures
        (r@, final(st)@) == spec_walk_arg(a@, opt_str_view(*out), old(st)@),
    decreases a, 0int,
{
    let ghost a0 = a;
    match a {
        GenericArg::Lifetime(l) => GenericArg::Lifetime(visit_lifetime(l, out, st)),
        GenericArg::Type(t) => {
            proof {
                assert(decreases_to!(a0 => a0->Type_0));
            }
            GenericArg::Type(walk_ty(t, out, st))
        },
        GenericArg::AssocType(name, t) => {
            proof {
                assert(decreases_to!(a0 => a0->AssocType_1));
            }
            let t1 = walk_ty(t, out, st);
            GenericArg::AssocType(name, t1)
        },
        GenericArg::Constraint(name, bounds) => {
            proof {
                assert(decreases_to!(a0 => a0->Constraint_1));
            }
            let bs = walk_bounds(bounds, out, st);
            GenericArg::Constraint(name, bs)
        },
        GenericArg::Const(text) => GenericArg::Const(text),
        GenericArg::AssocConst(name, text) => GenericArg::AssocConst(name, text),
        GenericArg::Other(text) => GenericArg::Other(text),
    }
}

#[verifier::loop_isolation(false)]
fn walk_bounds(v: Vec<Bound>, out: &Option<String>, st: &mut LifetimeCollector) -> (r: Vec<Bound>)
    ensures
        (bounds_view(r@), final(st)@) == spec_walk_bounds(
            bounds_view(v@),
            v@.len() as int,
            opt_str_view(*out),
            old(st)@,
        ),
    decreases v, 1int,
{
    let ghost v0 = v;
    let ghost sv = bounds_view(v@);
    let ghost st0 = st@;
    let n = v.len();
    let mut v = v;
    let mut r: Vec<Bound> = Vec::new();
    let mut k: usize = 0;
    while k < n
        invariant
            k <= n,
            n == v0@.len(),
            sv == bounds_view(v0@),
            v@ == v0@.subrange(k as int, n as int),
            (bounds_view(r@), st@) == spec_walk_bounds(sv, k as int, opt_str_view(*out), st0),
        decreases n - k,
    {
        let ghost r0 = r@;
        let e = v.remove(0);
        proof {
            assert(e == v0@[k as int]);
            assert(decreases_to!(v0 => v0@));
            assert(decreases_to!(v0@ => v0@[k as int]));
        }
        let e1 = walk_bound(e, out, st);
        r.push(e1);
        k = k + 1;
        assert(bounds_view(r@) =~= bounds_view(r0).push(e1@));
        assert(v@ =~= v0@.subrange(k as int, n as int));
    }
    r
}

fn walk_bound(b: Bound, out: &Option<String>, st: &mut LifetimeCollector) -> (r: Bound)
    ensures
        (r@, final(st)@) == spec_walk_bound(b@, opt_str_view(*out), old(st)@),
    decreases b, 0int,
{
    let ghost b0 = b;
    match b {
        Bound::Trait { maybe, binder, path } => {
            proof {
                assert(decreases_to!(b0 => b0->path));
            }
            let bl = walk_binder(binder, out, st);
            let p = walk_path(path, out, st);
            Bound::Trait { maybe, binder: bl, path: p }
        },
        Bound::Lifetime(l) => Bound::Lifetime(visit_lifetime(l, out, st)),
        Bound::Other(text) => Bound::Other(text),
    }
}


fn walk_input(i: FnInput, st: &mut LifetimeCollector) -> (r: FnInput)
    ensures
        (r@, final(st)@) == spec_walk_input(i@, old(st)@),
{
    let none: Option<String> = None;
    match i {
        FnInput::Receiver(Receiver::Reference { lifetime, mutable }) => {
            let l0 = match lifetime {
                Some(l) => l,
                None => String::from_str("_"),
            };
            let l1 = explicit(st, l0);
            record(st, l1.clone(), true);
            FnInput::Receiver(Receiver::Reference { lifetime: Some(l1), mutable })
        },
        FnInput::Receiver(Receiver::Typed(t)) => {
            let t1 = walk_ty(t, &none, st);
            FnInput::Receiver(Receiver::Typed(t1))
        },
        FnInput::Receiver(Receiver::Value) => FnInput::Receiver(Receiver::Value),
        FnInput::Typed { attrs, pat, ty } => {
            let t1 = walk_ty(ty, &none, st);
            FnInput::Typed { attrs, pat, ty: t1 }
        },
    }
}

#[verifier::loop_isolation(false)]
fn walk_inputs(v: Vec<FnInput>, st: &mut LifetimeCollector) -> (r: Vec<FnInput>)
    ensures
        (inputs_view(r@), final(st)@) == spec_walk_inputs(inputs_view(v@), v@.len() as int, old(st)@),
{
    let ghost v0 = v;
    let ghost sv = inputs_view(v@);
    let ghost st0 = st@;
    let n = v.len();
    let mut v = v;
    let mut r: Vec<FnInput> = Vec::new();
    let mut k: usize = 0;
    while k < n
        invariant
            k <= n,
            n == v0@.len(),
            sv == inputs_view(v0@),
            v@ == v0@.subrange(k as int, n as int),
            (inputs_view(r@), st@) == spec_walk_inputs(sv, k as int, st0),
        decreases n - k,
    {
        let ghost r0 = r@;
        let e = v.remove(0);
        assert(e == v0@[k as int]);
        let e1 = walk_input(e, st);
        r.push(e1);
        k = k + 1;
        assert(inputs_view(r@) =~= inputs_view(r0).push(e1@));
        assert(v@ =~= v0@.subrange(k as int, n as int));
    }
    r
}

/// Makes the elided lifetimes of a signature explicit: each elided lifetime
/// of the parameters (`&T`, `&self`, `'_`) gets a new lifetime parameter
/// `'__co3_0`, `'__co3_1`, ... in the order they are written, appended to the
/// generics; the elided lifetimes of the return type then take the one input
/// lifetime, or the receiver's, as the elision rules say. Function pointer
/// types keep their own elision.
pub fn explicitize_signature_lifetimes(sig: &mut FnSig)
    ensures
        final(sig)@ == spec_explicitize(old(sig)@),
{
    let ghost s0 = *sig;
    let ghost g0 = sig.generics@;
    let mut st = LifetimeCollector { params: Vec::new(), out: None, multiple: false, is_self: false };
    assert(st@ == spec_lifetimes_start()) by {
        assert(strings_view(st.params@) =~= Seq::<Seq<char>>::empty());
    }
    let mut inputs: Vec<FnInput> = Vec::new();
    std::mem::swap(&mut inputs, &mut sig.inputs);
    let new_inputs = walk_inputs(inputs, &mut st);
    sig.inputs = new_inputs;
    let ghost names = st@.params;
    let ghost ins = sig.inputs@;
    let ghost st1 = st@;
    let mut k: usize = 0;
    while k < st.params.len()
        invariant
            k <= st.params@.len(),
            names == strings_view(st.params@),
            st@ == st1,
            sig.inputs@ == ins,
            sig.where_clause == s0.where_clause,
            sig.output == s0.output,
            generics_view(sig.generics@) == generics_view(g0) + spec_lifetime_params(
                names.take(k as int),
            ),
        decreases st.params@.len() - k,
    {
        let ghost before = sig.generics@;
        let no_bounds: Vec<String> = Vec::new();
        assert(strings_view(no_bounds@) =~= Seq::<Seq<char>>::empty());
        let p = GenericParam::Lifetime { name: st.params[k].clone(), outlives: no_bounds };
        sig.generics.push(p);
        assert(generics_view(sig.generics@) =~= generics_view(before).push(p@));
        k = k + 1;
        assert(spec_lifetime_params(names.take(k as int)) =~= spec_lifetime_params(
            names.take(k - 1 as int),
        ).push(p@));
        assert(generics_view(sig.generics@) =~= generics_view(g0) + spec_lifetime_params(
            names.take(k as int),
        ));
    }
    assert(names.take(names.len() as int) =~= names);
    if !st.multiple || st.is_self {
        match &st.out {
            Some(l) => {
                let o: Option<String> = Some(l.clone());
                let mut output: Option<Ty> = None;
                std::mem::swap(&mut output, &mut sig.output);
                match output {
                    Some(t) => {
                        let t1 = walk_ty(t, &o, &mut st);
                        sig.output = Some(t1);
                    },
                    None => {},
                }
            },
            None => {},
        }
    }
}

} // verus!
