//! The signature of a method as a free function sees it: the receiver
//! becomes a parameter `__co3_self`, `Self` is written as the impl's self
//! type, and a reference to a trait object gets parentheses.
use vstd::prelude::*;
use crate::signature::{
    FnInput, FnSig, GenericParam, Receiver, SpecFnInput, SpecGenericParam, SpecReceiver, SpecSig,
    SpecWherePredicate, WherePredicate, generics_view, inputs_view, predicates_view,
};
use crate::tokens::Attr;
use crate::types::{
    Bound, GenericArg, PathArgs, PathSegment, QSelf, SpecArg, SpecArgs, SpecBound, SpecPath,
    SpecSegment, SpecTy, Ty, TyPath, bounds_view, clone_strings, clone_ty, generic_args_view,
    segments_view, tys_view,
};

verus! {

// ---------------------------------------------------------------------------
// The rules.

/// A rewrite of the types of a signature: `Self` written as the given self
/// type, references to trait objects given parentheses, or `<dyn Self>::TAG`
/// written with the given self type (and its text as written).
pub enum TyRule {
    Concretize(Ty),
    Parenthesize,
    SelfTag(Ty, String),
}

/// The value of a rule.
pub enum SpecTyRule {
    Concretize(SpecTy),
    Parenthesize,
    SelfTag(SpecTy, Seq<char>),
}

impl View for TyRule {
    type V = SpecTyRule;

    open spec fn view(&self) -> SpecTyRule {
        match self {
            TyRule::Concretize(t) => SpecTyRule::Concretize(t@),
            TyRule::Parenthesize => SpecTyRule::Parenthesize,
            TyRule::SelfTag(t, text) => SpecTyRule::SelfTag(t@, text@),
        }
    }
}

/// Whether the type is a tag id `<dyn Trait>::TAG`: the self type of the
/// path is a trait object of one plain trait bound named by one segment.
pub open spec fn is_tag_id_view(t: SpecTy) -> bool {
    match t {
        SpecTy::Path(p) => match p.qself {
            Some((q, position, has_as)) => {
                &&& position == 0
                &&& !has_as
                &&& p.segments.len() == 1
                &&& p.segments[0].ident == "TAG"@
                &&& p.segments[0].args is Bare
                &&& match *q {
                    SpecTy::TraitObject { bounds, .. } => bounds.len() == 1 && match bounds[0] {
                        SpecBound::Trait { maybe, binder, path } => !maybe && binder.len() == 0
                            && path.segments.len() == 1,
                        _ => false,
                    },
                    _ => false,
                }
            },
            None => false,
        },
        _ => false,
    }
}

/// Whether the rule leaves the type and all inside it alone: `Self` is not
/// written out inside a tag id.
pub open spec fn spec_rule_skips(rule: SpecTyRule, t: SpecTy) -> bool {
    match rule {
        SpecTyRule::Concretize(_) => is_tag_id_view(t),
        _ => false,
    }
}

/// `Self` followed by the segments `rest`, written with the self type:
/// the self type alone, its path continued where it is a plain path, else
/// `<self_ty>::rest`.
pub open spec fn spec_qualify_self_path(self_ty: SpecTy, rest: Seq<SpecSegment>) -> SpecTy {
    if rest.len() == 0 {
        self_ty
    } else {
        match self_ty {
            SpecTy::Path(sp) if sp.qself is None => SpecTy::Path(
                SpecPath { qself: None, leading_colon: sp.leading_colon, segments: sp.segments + rest },
            ),
            _ => SpecTy::Path(
                SpecPath { qself: Some((Box::new(self_ty), 0usize, false)), leading_colon: false, segments: rest },
            ),
        }
    }
}

/// What the rule makes of a type whose inner types it has already mapped.
pub open spec fn spec_rule_node(rule: SpecTyRule, t: SpecTy) -> SpecTy {
    match rule {
        SpecTyRule::Concretize(self_ty) => match t {
            SpecTy::Path(p) => if p.qself is None && p.segments.len() > 0 && p.segments[0].ident == "Self"@ {
                spec_qualify_self_path(self_ty, p.segments.drop_first())
            } else {
                t
            },
            _ => t,
        },
        SpecTyRule::Parenthesize => match t {
            SpecTy::Reference { lifetime, mutable, elem } => match *elem {
                SpecTy::TraitObject { text, .. } => SpecTy::Reference {
                    lifetime,
                    mutable,
                    elem: Box::new(SpecTy::Paren { elem, text: "("@ + text + ")"@ }),
                },
                _ => t,
            },
            _ => t,
        },
        SpecTyRule::SelfTag(self_ty, text) => if t == spec_dyn_self_tag_ty() {
            spec_self_tag_ty(self_ty, text)
        } else {
            t
        },
    }
}

/// `<dyn Self>::TAG`.
pub open spec fn spec_dyn_self_tag_ty() -> SpecTy {
    SpecTy::Path(
        SpecPath {
            qself: Some((Box::new(crate::tag_ids::spec_dyn_self()), 0usize, false)),
            leading_colon: false,
            segments: seq![SpecSegment { ident: "TAG"@, args: SpecArgs::Bare }],
        },
    )
}

/// Whether `dyn` can be written before the self type: it is a trait object
/// already, or a path with no qualified self type.
pub open spec fn tag_self_writable(self_ty: SpecTy) -> bool {
    self_ty is TraitObject || (self_ty matches SpecTy::Path(p) && p.qself is None)
}

/// The tag id of the self type `self_ty`, written `text`: `<self_ty>::TAG`
/// for a trait object, else `<dyn self_ty>::TAG`.
pub open spec fn spec_self_tag_ty(self_ty: SpecTy, text: Seq<char>) -> SpecTy {
    let q = match self_ty {
        SpecTy::Path(p) => SpecTy::TraitObject {
            bounds: seq![SpecBound::Trait { maybe: false, binder: Seq::empty(), path: p }],
            text: "dyn "@ + text,
        },
        _ => self_ty,
    };
    SpecTy::Path(
        SpecPath {
            qself: Some((Box::new(q), 0usize, false)),
            leading_colon: false,
            segments: seq![SpecSegment { ident: "TAG"@, args: SpecArgs::Bare }],
        },
    )
}

// ---------------------------------------------------------------------------
// The walk over a signature's types.

/// A type with the rule applied: a type the rule skips stays whole; else
/// the types inside it are mapped first, then the rule rewrites the type.
pub open spec fn spec_map_ty(t: SpecTy, rule: SpecTyRule) -> SpecTy
    decreases t, 1int,
{
    if spec_rule_skips(rule, t) {
        t
    } else {
        spec_rule_node(rule, spec_map_children(t, rule))
    }
}

/// A type with the rule applied to each type inside it.
pub open spec fn spec_map_children(t: SpecTy, rule: SpecTyRule) -> SpecTy
    decreases t, 0int,
{
    match t {
        SpecTy::Path(p) => SpecTy::Path(spec_map_path(p, rule)),
        SpecTy::Reference { lifetime, mutable, elem } => SpecTy::Reference {
            lifetime,
            mutable,
            elem: Box::new(spec_map_ty(*elem, rule)),
        },
        SpecTy::Ptr { mutable, elem } => SpecTy::Ptr { mutable, elem: Box::new(spec_map_ty(*elem, rule)) },
        SpecTy::Slice(elem) => SpecTy::Slice(Box::new(spec_map_ty(*elem, rule))),
        SpecTy::Array { elem, len } => SpecTy::Array { elem: Box::new(spec_map_ty(*elem, rule)), len },
        SpecTy::Tuple(elems) => SpecTy::Tuple(spec_map_tys(elems, elems.len() as int, rule)),
        SpecTy::ImplTrait { bounds, text } => SpecTy::ImplTrait {
            bounds: spec_map_bounds(bounds, bounds.len() as int, rule),
            text,
        },
        SpecTy::TraitObject { bounds, text } => SpecTy::TraitObject {
            bounds: spec_map_bounds(bounds, bounds.len() as int, rule),
            text,
        },
        SpecTy::Paren { elem, text } => SpecTy::Paren { elem: Box::new(spec_map_ty(*elem, rule)), text },
        SpecTy::Group { elem, text } => SpecTy::Group { elem: Box::new(spec_map_ty(*elem, rule)), text },
        _ => t,
    }
}

/// The first `n` types, mapped.
pub open spec fn spec_map_tys(s: Seq<SpecTy>, n: int, rule: SpecTyRule) -> Seq<SpecTy>
    decreases s, n,
{
    if n <= 0 || n > s.len() {
        Seq::empty()
    } else {
        spec_map_tys(s, n - 1, rule).push(spec_map_ty(s[n - 1], rule))
    }
}

/// A path with the rule applied to the types inside it: its qualified self
/// type and its segments' arguments.
pub open spec fn spec_map_path(p: SpecPath, rule: SpecTyRule) -> SpecPath
    decreases p, 0int,
{
    SpecPath {
        qself: match p.qself {
            Some(q) => Some((Box::new(spec_map_ty(*q.0, rule)), q.1, q.2)),
            None => None,
        },
        leading_colon: p.leading_colon,
        segments: spec_map_segments(p.segments, p.segments.len() as int, rule),
    }
}

/// The first `n` segments, mapped.
pub open spec fn spec_map_segments(s: Seq<SpecSegment>, n: int, rule: SpecTyRule) -> Seq<
    SpecSegment,
>
    decreases s, n,
{
    if n <= 0 || n > s.len() {
        Seq::empty()
    } else {
        spec_map_segments(s, n - 1, rule).push(
            SpecSegment { ident: s[n - 1].ident, args: spec_map_args(s[n - 1].args, rule) },
        )
    }
}

/// A segment's arguments, mapped.
pub open spec fn spec_map_args(a: SpecArgs, rule: SpecTyRule) -> SpecArgs
    decreases a, 0int,
{
    match a {
        SpecArgs::Bare => a,
        SpecArgs::Angle(args) => SpecArgs::Angle(spec_map_arg_list(args, args.len() as int, rule)),
        SpecArgs::Parenthesized(inputs, output) => SpecArgs::Parenthesized(
            spec_map_tys(inputs, inputs.len() as int, rule),
            match output {
                Some(o) => Some(Box::new(spec_map_ty(*o, rule))),
                None => None,
            },
        ),
    }
}

/// The first `n` generic arguments, mapped.
pub open spec fn spec_map_arg_list(s: Seq<SpecArg>, n: int, rule: SpecTyRule) -> Seq<SpecArg>
    decreases s, n,
{
    if n <= 0 || n > s.len() {
        Seq::empty()
    } else {
        spec_map_arg_list(s, n - 1, rule).push(spec_map_arg(s[n - 1], rule))
    }
}

/// One generic argument, mapped.
pub open spec fn spec_map_arg(a: SpecArg, rule: SpecTyRule) -> SpecArg
    decreases a, 0int,
{
    match a {
        SpecArg::Type(t) => SpecArg::Type(spec_map_ty(t, rule)),
        SpecArg::AssocType(name, t) => SpecArg::AssocType(name, spec_map_ty(t, rule)),
        SpecArg::Constraint(name, bounds) => SpecArg::Constraint(
            name,
            spec_map_bounds(bounds, bounds.len() as int, rule),
        ),
        _ => a,
    }
}

/// The first `n` bounds, mapped.
pub open spec fn spec_map_bounds(s: Seq<SpecBound>, n: int, rule: SpecTyRule) -> Seq<SpecBound>
    decreases s, n,
{
    if n <= 0 || n > s.len() {
        Seq::empty()
    } else {
        spec_map_bounds(s, n - 1, rule).push(spec_map_bound(s[n - 1], rule))
    }
}

/// One bound: a trait bound's path has the types inside it mapped.
pub open spec fn spec_map_bound(b: SpecBound, rule: SpecTyRule) -> SpecBound
    decreases b, 0int,
{
    match b {
        SpecBound::Trait { maybe, binder, path } => SpecBound::Trait {
            maybe,
            binder,
            path: spec_map_path(path, rule),
        },
        _ => b,
    }
}

/// The first `n` generic parameters, mapped.
pub open spec fn spec_map_generics(s: Seq<SpecGenericParam>, n: int, rule: SpecTyRule) -> Seq<
    SpecGenericParam,
>
    decreases n,
{
    if n <= 0 || n > s.len() {
        Seq::empty()
    } else {
        spec_map_generics(s, n - 1, rule).push(
            match s[n - 1] {
                SpecGenericParam::Type { name, bounds } => SpecGenericParam::Type {
                    name,
                    bounds: spec_map_bounds(bounds, bounds.len() as int, rule),
                },
                SpecGenericParam::Const { name, ty } => SpecGenericParam::Const {
                    name,
                    ty: spec_map_ty(ty, rule),
                },
                SpecGenericParam::Lifetime { .. } => s[n - 1],
            },
        )
    }
}

/// The first `n` where predicates, mapped.
pub open spec fn spec_map_predicates(
    s: Seq<SpecWherePredicate>,
    n: int,
    rule: SpecTyRule,
) -> Seq<SpecWherePredicate>
    decreases n,
{
    if n <= 0 || n > s.len() {
        Seq::empty()
    } else {
        spec_map_predicates(s, n - 1, rule).push(
            match s[n - 1] {
                SpecWherePredicate::Type { ty, bounds } => SpecWherePredicate::Type {
                    ty: spec_map_ty(ty, rule),
                    bounds: spec_map_bounds(bounds, bounds.len() as int, rule),
                },
                SpecWherePredicate::Lifetime { .. } => s[n - 1],
            },
        )
    }
}

/// The first `n` parameters, mapped.
pub open spec fn spec_map_inputs(s: Seq<SpecFnInput>, n: int, rule: SpecTyRule) -> Seq<
    SpecFnInput,
>
    decreases n,
{
    if n <= 0 || n > s.len() {
        Seq::empty()
    } else {
        spec_map_inputs(s, n - 1, rule).push(
            match s[n - 1] {
                SpecFnInput::Typed { attrs, pat, ty } => SpecFnInput::Typed {
                    attrs,
                    pat,
                    ty: spec_map_ty(ty, rule),
                },
                SpecFnInput::Receiver(SpecReceiver::Typed(t)) => SpecFnInput::Receiver(
                    SpecReceiver::Typed(spec_map_ty(t, rule)),
                ),
                SpecFnInput::Receiver(_) => s[n - 1],
            },
        )
    }
}

/// A signature with the rule applied to every type in it.
pub open spec fn spec_map_sig(sig: SpecSig, rule: SpecTyRule) -> SpecSig {
    SpecSig {
        generics: spec_map_generics(sig.generics, sig.generics.len() as int, rule),
        where_clause: match sig.where_clause {
            Some(w) => Some(spec_map_predicates(w, w.len() as int, rule)),
            None => None,
        },
        inputs: spec_map_inputs(sig.inputs, sig.inputs.len() as int, rule),
        output: match sig.output {
            Some(t) => Some(spec_map_ty(t, rule)),
            None => None,
        },
    }
}


// ---------------------------------------------------------------------------
// The executable rules and walk.

/// Whether the type is a tag id.
fn tag_id_check(t: &Ty) -> (r: bool)
    ensures
        r == is_tag_id_view(t@),
{
    proof {
        reveal_strlit("TAG");
    }
    match t {
        Ty::Path(p) => match &p.qself {
            Some(q) => {
                if !(q.position == 0 && !q.has_as && p.segments.len() == 1) {
                    return false;
                }
                assert(p@.segments[0] == SpecSegment {
                    ident: p.segments@[0].ident@,
                    args: crate::types::path_args_view(p.segments@[0].args),
                });
                if !crate::text::str_eq(p.segments[0].ident.as_str(), "TAG") {
                    return false;
                }
                if !matches!(p.segments[0].args, PathArgs::Bare) {
                    return false;
                }
                match &*q.ty {
                    Ty::TraitObject { bounds, .. } => {
                        if bounds.len() != 1 {
                            return false;
                        }
                        assert(bounds_view(bounds@)[0] == crate::types::bound_view(bounds@[0]));
                        match &bounds[0] {
                            Bound::Trait { maybe, binder, path } => !*maybe && binder.len() == 0
                                && path.segments.len() == 1,
                            _ => false,
                        }
                    },
                    _ => false,
                }
            },
            None => false,
        },
        _ => false,
    }
}

fn rule_skips(rule: &TyRule, t: &Ty) -> (r: bool)
    ensures
        r == spec_rule_skips(rule@, t@),
{
    match rule {
        TyRule::Concretize(_) => tag_id_check(t),
        _ => false,
    }
}

fn clone_segments_from(v: &Vec<PathSegment>, from: usize) -> (r: Vec<PathSegment>)
    requires
        from <= v@.len(),
    ensures
        segments_view(r@) == segments_view(v@).subrange(from as int, v@.len() as int),
{
    let mut out: Vec<PathSegment> = Vec::new();
    let mut i: usize = from;
    while i < v.len()
        invariant
            from <= i <= v@.len(),
            segments_view(out@) == segments_view(v@).subrange(from as int, i as int),
        decreases v@.len() - i,
    {
        let ghost o0 = out@;
        let seg = &v[i];
        let c = PathSegment { ident: seg.ident.clone(), args: crate::types::clone_path_args(&seg.args) };
        out.push(c);
        assert(segments_view(out@) =~= segments_view(o0).push(
            SpecSegment { ident: c.ident@, args: c.args@ },
        ));
        i = i + 1;
        assert(segments_view(v@).subrange(from as int, i as int) =~= segments_view(v@).subrange(
            from as int,
            i - 1,
        ).push(segments_view(v@)[i - 1]));
    }
    out
}

/// Whether the path starts with `Self` and has no qualified self type.
fn self_headed(p: &TyPath) -> (r: bool)
    ensures
        r == (p@.qself is None && p@.segments.len() > 0 && p@.segments[0].ident == "Self"@),
{
    proof {
        reveal_strlit("Self");
    }
    if p.qself.is_some() || p.segments.len() == 0 {
        return false;
    }
    assert(p@.segments[0].ident == p.segments@[0].ident@);
    crate::text::str_eq(p.segments[0].ident.as_str(), "Self")
}

/// `Self` followed by the segments of `p` after its first, written with the
/// self type.
fn qualify_self_path(self_ty: &Ty, p: &TyPath) -> (r: Ty)
    requires
        p.segments@.len() > 0,
    ensures
        r@ == spec_qualify_self_path(self_ty@, p@.segments.drop_first()),
{
    let ghost rv = p@.segments.drop_first();
    let rest = clone_segments_from(&p.segments, 1);
    assert(segments_view(p.segments@).subrange(1, p.segments@.len() as int) =~= rv);
    assert(segments_view(rest@) == rv);
    if rest.len() == 0 {
        return clone_ty(self_ty);
    }
    match self_ty {
        Ty::Path(sp) => {
            if sp.qself.is_none() {
                let mut segs = clone_segments_from(&sp.segments, 0);
                assert(segments_view(sp.segments@).subrange(0, sp.segments@.len() as int) =~= segments_view(
                    sp.segments@,
                ));
                let ghost s0 = segs@;
                let mut rest = rest;
                let ghost r0 = rest@;
                segs.append(&mut rest);
                assert(segments_view(segs@) =~= segments_view(s0) + segments_view(r0));
                let np = TyPath { qself: None, leading_colon: sp.leading_colon, segments: segs };
                let r = Ty::Path(np);
                assert(self_ty@ == SpecTy::Path(crate::types::path_view(*sp)));
                assert(crate::types::path_view(np) == SpecPath {
                    qself: None,
                    leading_colon: sp@.leading_colon,
                    segments: sp@.segments + rv,
                });
                assert(r@ == SpecTy::Path(crate::types::path_view(np)));
                return r;
            }
            assert(self_ty@ == SpecTy::Path(crate::types::path_view(*sp)));
            assert(crate::types::path_view(*sp).qself is Some);
        },
        _ => {},
    }
    let np = TyPath {
        qself: Some(QSelf { ty: Box::new(clone_ty(self_ty)), position: 0, has_as: false }),
        leading_colon: false,
        segments: rest,
    };
    let r = Ty::Path(np);
    assert(crate::types::path_view(np) == SpecPath {
        qself: Some((Box::new(self_ty@), 0usize, false)),
        leading_colon: false,
        segments: rv,
    });
    assert(r@ == SpecTy::Path(crate::types::path_view(np)));
    r
}

fn concretize_node(self_ty: &Ty, t: Ty) -> (r: Ty)
    ensures
        r@ == spec_rule_node(SpecTyRule::Concretize(self_ty@), t@),
{
    match t {
        Ty::Path(p) => {
            if self_headed(&p) {
                qualify_self_path(self_ty, &p)
            } else {
                Ty::Path(p)
            }
        },
        other => other,
    }
}

/// `(text)`.
fn parenthesized_text(text: &String) -> (r: String)
    ensures
        r@ == "("@ + text@ + ")"@,
{
    let mut out: Vec<char> = Vec::new();
    out.push('(');
    crate::text::push_str(&mut out, text.as_str());
    out.push(')');
    proof {
        reveal_strlit("(");
        reveal_strlit(")");
        assert(out@ =~= "("@ + text@ + ")"@);
    }
    crate::text::string_of(&out)
}

fn parenthesize_node(t: Ty) -> (r: Ty)
    ensures
        r@ == spec_rule_node(SpecTyRule::Parenthesize, t@),
{
    let ghost t0 = t@;
    match t {
        Ty::Reference { lifetime, mutable, elem } => {
            let ghost e0 = (*elem)@;
            assert(t0 == SpecTy::Reference {
                lifetime: match lifetime {
                    Some(l) => Some(l@),
                    None => None,
                },
                mutable,
                elem: Box::new(e0),
            });
            match *elem {
                Ty::TraitObject { bounds, text } => {
                    let pt = parenthesized_text(&text);
                    let inner = Ty::TraitObject { bounds, text };
                    assert(inner@ == e0);
                    let paren = Ty::Paren { elem: Box::new(inner), text: pt };
                    assert(paren@ == SpecTy::Paren { elem: Box::new(e0), text: "("@ + text@ + ")"@ });
                    let r = Ty::Reference { lifetime, mutable, elem: Box::new(paren) };
                    assert(r@ == SpecTy::Reference {
                        lifetime: match lifetime {
                            Some(l) => Some(l@),
                            None => None,
                        },
                        mutable,
                        elem: Box::new(paren@),
                    });
                    r
                },
                other => Ty::Reference { lifetime, mutable, elem: Box::new(other) },
            }
        },
        _ => t,
    }
}

fn rule_node(rule: &TyRule, t: Ty) -> (r: Ty)
    ensures
        r@ == spec_rule_node(rule@, t@),
{
    match rule {
        TyRule::Concretize(self_ty) => concretize_node(self_ty, t),
        TyRule::Parenthesize => parenthesize_node(t),
        TyRule::SelfTag(self_ty, text) => self_tag_node(self_ty, text, t),
    }
}

/// `TAG` alone, as a path's segments.
fn tag_segments() -> (r: Vec<PathSegment>)
    ensures
        segments_view(r@) == seq![SpecSegment { ident: "TAG"@, args: SpecArgs::Bare }],
{
    let r = vec![PathSegment { ident: "TAG".to_owned(), args: PathArgs::Bare }];
    assert(segments_view(r@) =~= seq![SpecSegment { ident: "TAG"@, args: SpecArgs::Bare }]);
    r
}

/// `<q>::TAG`.
fn tag_of(q: Ty) -> (r: Ty)
    ensures
        r@ == SpecTy::Path(
            SpecPath {
                qself: Some((Box::new(q@), 0usize, false)),
                leading_colon: false,
                segments: seq![SpecSegment { ident: "TAG"@, args: SpecArgs::Bare }],
            },
        ),
{
    let segments = tag_segments();
    let p = TyPath { qself: Some(QSelf { ty: Box::new(q), position: 0, has_as: false }), leading_colon: false, segments };
    let r = Ty::Path(p);
    assert(r@ == SpecTy::Path(crate::types::path_view(p)));
    r
}

/// `"dyn " + text`.
fn dyn_text(text: &String) -> (r: String)
    ensures
        r@ == "dyn "@ + text@,
{
    let mut out: Vec<char> = Vec::new();
    crate::text::push_str(&mut out, "dyn ");
    crate::text::push_str(&mut out, text.as_str());
    proof {
        reveal_strlit("dyn ");
        assert(out@ =~= "dyn "@ + text@);
    }
    crate::text::string_of(&out)
}

fn self_tag_node(self_ty: &Ty, text: &String, t: Ty) -> (r: Ty)
    ensures
        r@ == spec_rule_node(SpecTyRule::SelfTag(self_ty@, text@), t@),
{
    let pattern = tag_of(crate::tag_ids::dyn_self());
    if !crate::equality::ty_equal(&t, &pattern) {
        return t;
    }
    let q = match self_ty {
        Ty::Path(p) => {
            let b = Bound::Trait { maybe: false, binder: Vec::new(), path: crate::types::clone_path(p) };
            assert(crate::types::strings_view(Seq::<String>::empty()) =~= Seq::<Seq<char>>::empty());
            assert(self_ty@ == SpecTy::Path(crate::types::path_view(*p)));
            let bounds = vec![b];
            assert(bounds_view(bounds@) =~= seq![SpecBound::Trait { maybe: false, binder: Seq::empty(), path: p@ }]);
            Ty::TraitObject { bounds, text: dyn_text(text) }
        },
        _ => clone_ty(self_ty),
    };
    tag_of(q)
}

fn map_ty(t: Ty, rule: &TyRule) -> (r: Ty)
    ensures
        r@ == spec_map_ty(t@, rule@),
    decreases t, 1int,
{
    if rule_skips(rule, &t) {
        t
    } else {
        let c = map_children(t, rule);
        rule_node(rule, c)
    }
}

fn map_children(t: Ty, rule: &TyRule) -> (r: Ty)
    ensures
        r@ == spec_map_children(t@, rule@),
    decreases t, 0int,
{
    let ghost t0 = t;
    match t {
        Ty::Path(p) => {
            proof {
                assert(decreases_to!(t0 => t0->Path_0));
            }
            Ty::Path(map_path(p, rule))
        },
        Ty::Reference { lifetime, mutable, elem } => {
            proof {
                assert(decreases_to!(t0 => t0->Reference_elem));
            }
            Ty::Reference { lifetime, mutable, elem: Box::new(map_ty(*elem, rule)) }
        },
        Ty::Ptr { mutable, elem } => {
            proof {
                assert(decreases_to!(t0 => t0->Ptr_elem));
            }
            Ty::Ptr { mutable, elem: Box::new(map_ty(*elem, rule)) }
        },
        Ty::Slice(elem) => {
            proof {
                assert(decreases_to!(t0 => t0->Slice_0));
            }
            Ty::Slice(Box::new(map_ty(*elem, rule)))
        },
        Ty::Array { elem, len } => {
            proof {
                assert(decreases_to!(t0 => t0->Array_elem));
            }
            Ty::Array { elem: Box::new(map_ty(*elem, rule)), len }
        },
        Ty::Tuple(elems) => {
            proof {
                assert(decreases_to!(t0 => t0->Tuple_0));
            }
            Ty::Tuple(map_tys(elems, rule))
        },
        Ty::ImplTrait { bounds, text } => {
            proof {
                assert(decreases_to!(t0 => t0->ImplTrait_bounds));
            }
            Ty::ImplTrait { bounds: map_bounds(bounds, rule), text }
        },
        Ty::TraitObject { bounds, text } => {
            proof {
                assert(decreases_to!(t0 => t0->TraitObject_bounds));
            }
            Ty::TraitObject { bounds: map_bounds(bounds, rule), text }
        },
        Ty::Paren { elem, text } => {
            proof {
                assert(decreases_to!(t0 => t0->Paren_elem));
            }
            Ty::Paren { elem: Box::new(map_ty(*elem, rule)), text }
        },
        Ty::Group { elem, text } => {
            proof {
                assert(decreases_to!(t0 => t0->Group_elem));
            }
            Ty::Group { elem: Box::new(map_ty(*elem, rule)), text }
        },
        Ty::FnPtr { binder, output, text } => Ty::FnPtr { binder, output, text },
        Ty::Infer => Ty::Infer,
        Ty::Other(text) => Ty::Other(text),
    }
}

#[verifier::loop_isolation(false)]
fn map_tys(v: Vec<Ty>, rule: &TyRule) -> (r: Vec<Ty>)
    ensures
        tys_view(r@) == spec_map_tys(tys_view(v@), v@.len() as int, rule@),
    decreases v, 1int,
{
    let ghost v0 = v;
    let ghost sv = tys_view(v@);
    let n = v.len();
    let mut v = v;
    let mut r: Vec<Ty> = Vec::new();
    let mut k: usize = 0;
    while k < n
        invariant
            k <= n,
            n == v0@.len(),
            sv == tys_view(v0@),
            v@ == v0@.subrange(k as int, n as int),
            tys_view(r@) == spec_map_tys(sv, k as int, rule@),
        decreases n - k,
    {
        let ghost r0 = r@;
        let e = v.remove(0);
        proof {
            assert(e == v0@[k as int]);
            assert(decreases_to!(v0 => v0@));
            assert(decreases_to!(v0@ => v0@[k as int]));
        }
        let e1 = map_ty(e, rule);
        r.push(e1);
        k = k + 1;
        assert(tys_view(r@) =~= tys_view(r0).push(e1@));
        assert(v@ =~= v0@.subrange(k as int, n as int));
    }
    r
}

fn map_path(p: TyPath, rule: &TyRule) -> (r: TyPath)
    ensures
        r@ == spec_map_path(p@, rule@),
    decreases p, 0int,
{
    let ghost p0 = p;
    let TyPath { qself, leading_colon, segments } = p;
    let q = match qself {
        Some(q) => {
            proof {
                assert(decreases_to!(p0 => p0.qself));
                assert(decreases_to!(p0.qself => p0.qself->0));
                assert(decreases_to!(p0.qself->0 => p0.qself->0.ty));
            }
            let QSelf { ty, position, has_as } = q;
            Some(QSelf { ty: Box::new(map_ty(*ty, rule)), position, has_as })
        },
        None => None,
    };
    proof {
        assert(decreases_to!(p0 => p0.segments));
    }
    let segs = map_segments(segments, rule);
    TyPath { qself: q, leading_colon, segments: segs }
}

#[verifier::loop_isolation(false)]
fn map_segments(v: Vec<PathSegment>, rule: &TyRule) -> (r: Vec<PathSegment>)
    ensures
        segments_view(r@) == spec_map_segments(segments_view(v@), v@.len() as int, rule@),
    decreases v, 1int,
{
    let ghost v0 = v;
    let ghost sv = segments_view(v@);
    let n = v.len();
    let mut v = v;
    let mut r: Vec<PathSegment> = Vec::new();
    let mut k: usize = 0;
    while k < n
        invariant
            k <= n,
            n == v0@.len(),
            sv == segments_view(v0@),
            v@ == v0@.subrange(k as int, n as int),
            segments_view(r@) == spec_map_segments(sv, k as int, rule@),
        decreases n - k,
    {
        let ghost r0 = r@;
        let e = v.remove(0);
        proof {
            assert(e == v0@[k as int]);
            assert(decreases_to!(v0 => v0@));
            assert(decreases_to!(v0@ => v0@[k as int]));
            assert(decreases_to!(v0@[k as int] => v0@[k as int].args));
        }
        let PathSegment { ident, args } = e;
        let a1 = map_args(args, rule);
        let seg = PathSegment { ident, args: a1 };
        r.push(seg);
        k = k + 1;
        assert(segments_view(r@) =~= segments_view(r0).push(SpecSegment { ident: seg.ident@, args: a1@ }));
        assert(v@ =~= v0@.subrange(k as int, n as int));
    }
    r
}

fn map_args(a: PathArgs, rule: &TyRule) -> (r: PathArgs)
    ensures
        r@ == spec_map_args(a@, rule@),
    decreases a, 0int,
{
    let ghost a0 = a;
    match a {
        PathArgs::Bare => PathArgs::Bare,
        PathArgs::Angle(args) => {
            proof {
                assert(decreases_to!(a0 => a0->Angle_0));
            }
            PathArgs::Angle(map_arg_list(args, rule))
        },
        PathArgs::Parenthesized(inputs, output) => {
            proof {
                assert(decreases_to!(a0 => a0->Parenthesized_0));
            }
            let ins = map_tys(inputs, rule);
            match output {
                Some(o) => {
                    proof {
                        assert(decreases_to!(a0 => a0->Parenthesized_1));
                        assert(decreases_to!(a0->Parenthesized_1 => a0->Parenthesized_1->0));
                    }
                    PathArgs::Parenthesized(ins, Some(Box::new(map_ty(*o, rule))))
                },
                None => PathArgs::Parenthesized(ins, None),
            }
        },
    }
}

#[verifier::loop_isolation(false)]
fn map_arg_list(v: Vec<GenericArg>, rule: &TyRule) -> (r: Vec<GenericArg>)
    ensures
        generic_args_view(r@) == spec_map_arg_list(
            generic_args_view(v@),
            v@.len() as int,
            rule@,
        ),
    decreases v, 1int,
{
    let ghost v0 = v;
    let ghost sv = generic_args_view(v@);
    let n = v.len();
    let mut v = v;
    let mut r: Vec<GenericArg> = Vec::new();
    let mut k: usize = 0;
    while k < n
        invariant
            k <= n,
            n == v0@.len(),
            sv == generic_args_view(v0@),
            v@ == v0@.subrange(k as int, n as int),
            generic_args_view(r@) == spec_map_arg_list(sv, k as int, rule@),
        decreases n - k,
    {
        let ghost r0 = r@;
        let e = v.remove(0);
        proof {
            assert(e == v0@[k as int]);
            assert(decreases_to!(v0 => v0@));
            assert(decreases_to!(v0@ => v0@[k as int]));
        }
        let e1 = map_arg(e, rule);
        r.push(e1);
        k = k + 1;
        assert(generic_args_view(r@) =~= generic_args_view(r0).push(e1@));
        assert(v@ =~= v0@.subrange(k as int, n as int));
    }
    r
}

fn map_arg(a: GenericArg, rule: &TyRule) -> (r: GenericArg)
    ensures
        r@ == spec_map_arg(a@, rule@),
    decreases a, 0int,
{
    let ghost a0 = a;
    match a {
        GenericArg::Type(t) => {
            proof {
                assert(decreases_to!(a0 => a0->Type_0));
            }
            GenericArg::Type(map_ty(t, rule))
        },
        GenericArg::AssocType(name, t) => {
            proof {
                assert(decreases_to!(a0 => a0->AssocType_1));
            }
            GenericArg::AssocType(name, map_ty(t, rule))
        },
        GenericArg::Constraint(name, bounds) => {
            proof {
                assert(decreases_to!(a0 => a0->Constraint_1));
            }
            GenericArg::Constraint(name, map_bounds(bounds, rule))
        },
        GenericArg::Lifetime(l) => GenericArg::Lifetime(l),
        GenericArg::Const(text) => GenericArg::Const(text),
        GenericArg::AssocConst(name, text) => GenericArg::AssocConst(name, text),
        GenericArg::Other(text) => GenericArg::Other(text),
    }
}

#[verifier::loop_isolation(false)]
fn map_bounds(v: Vec<Bound>, rule: &TyRule) -> (r: Vec<Bound>)
    ensures
        bounds_view(r@) == spec_map_bounds(bounds_view(v@), v@.len() as int, rule@),
    decreases v, 1int,
{
    let ghost v0 = v;
    let ghost sv = bounds_view(v@);
    let n = v.len();
    let mut v = v;
    let mut r: Vec<Bound> = Vec::new();
    let mut k: usize = 0;
    while k < n
        invariant
            k <= n,
            n == v0@.len(),
            sv == bounds_view(v0@),
            v@ == v0@.subrange(k as int, n as int),
            bounds_view(r@) == spec_map_bounds(sv, k as int, rule@),
        decreases n - k,
    {
        let ghost r0 = r@;
        let e = v.remove(0);
        proof {
            assert(e == v0@[k as int]);
            assert(decreases_to!(v0 => v0@));
            assert(decreases_to!(v0@ => v0@[k as int]));
        }
        let e1 = map_bound(e, rule);
        r.push(e1);
        k = k + 1;
        assert(bounds_view(r@) =~= bounds_view(r0).push(e1@));
        assert(v@ =~= v0@.subrange(k as int, n as int));
    }
    r
}

fn map_bound(b: Bound, rule: &TyRule) -> (r: Bound)
    ensures
        r@ == spec_map_bound(b@, rule@),
    decreases b, 0int,
{
    let ghost b0 = b;
    match b {
        Bound::Trait { maybe, binder, path } => {
            proof {
                assert(decreases_to!(b0 => b0->path));
            }
            Bound::Trait { maybe, binder, path: map_path(path, rule) }
        },
        Bound::Lifetime(l) => Bound::Lifetime(l),
        Bound::Other(text) => Bound::Other(text),
    }
}

#[verifier::loop_isolation(false)]
fn map_generics(v: Vec<GenericParam>, rule: &TyRule) -> (r: Vec<GenericParam>)
    ensures
        generics_view(r@) == spec_map_generics(generics_view(v@), v@.len() as int, rule@),
{
    let ghost v0 = v;
    let ghost sv = generics_view(v@);
    let n = v.len();
    let mut v = v;
    let mut r: Vec<GenericParam> = Vec::new();
    let mut k: usize = 0;
    while k < n
        invariant
            k <= n,
            n == v0@.len(),
            sv == generics_view(v0@),
            v@ == v0@.subrange(k as int, n as int),
            generics_view(r@) == spec_map_generics(sv, k as int, rule@),
        decreases n - k,
    {
        let ghost r0 = r@;
        let e = v.remove(0);
        assert(e == v0@[k as int]);
        let e1 = match e {
            GenericParam::Type { name, bounds } => GenericParam::Type { name, bounds: map_bounds(bounds, rule) },
            GenericParam::Const { name, ty } => GenericParam::Const { name, ty: map_ty(ty, rule) },
            GenericParam::Lifetime { name, outlives } => GenericParam::Lifetime { name, outlives },
        };
        r.push(e1);
        k = k + 1;
        assert(generics_view(r@) =~= generics_view(r0).push(e1@));
        assert(v@ =~= v0@.subrange(k as int, n as int));
    }
    r
}

#[verifier::loop_isolation(false)]
fn map_predicates(v: Vec<WherePredicate>, rule: &TyRule) -> (r: Vec<WherePredicate>)
    ensures
        predicates_view(r@) == spec_map_predicates(
            predicates_view(v@),
            v@.len() as int,
            rule@,
        ),
{
    let ghost v0 = v;
    let ghost sv = predicates_view(v@);
    let n = v.len();
    let mut v = v;
    let mut r: Vec<WherePredicate> = Vec::new();
    let mut k: usize = 0;
    while k < n
        invariant
            k <= n,
            n == v0@.len(),
            sv == predicates_view(v0@),
            v@ == v0@.subrange(k as int, n as int),
            predicates_view(r@) == spec_map_predicates(sv, k as int, rule@),
        decreases n - k,
    {
        let ghost r0 = r@;
        let e = v.remove(0);
        assert(e == v0@[k as int]);
        let e1 = match e {
            WherePredicate::Type { ty, bounds } => WherePredicate::Type {
                ty: map_ty(ty, rule),
                bounds: map_bounds(bounds, rule),
            },
            WherePredicate::Lifetime { lifetime, outlives } => WherePredicate::Lifetime { lifetime, outlives },
        };
        r.push(e1);
        k = k + 1;
        assert(predicates_view(r@) =~= predicates_view(r0).push(e1@));
        assert(v@ =~= v0@.subrange(k as int, n as int));
    }
    r
}

#[verifier::loop_isolation(false)]
#[verifier::rlimit(40)]
fn map_inputs(v: Vec<FnInput>, rule: &TyRule) -> (r: Vec<FnInput>)
    ensures
        inputs_view(r@) == spec_map_inputs(inputs_view(v@), v@.len() as int, rule@),
{
    let ghost v0 = v;
    let ghost sv = inputs_view(v@);
    let n = v.len();
    let mut v = v;
    let mut r: Vec<FnInput> = Vec::new();
    let mut k: usize = 0;
    while k < n
        invariant
            k <= n,
            n == v0@.len(),
            sv == inputs_view(v0@),
            v@ == v0@.subrange(k as int, n as int),
            inputs_view(r@) == spec_map_inputs(sv, k as int, rule@),
        decreases n - k,
    {
        let ghost r0 = r@;
        let e = v.remove(0);
        assert(e == v0@[k as int]);
        let e1 = match e {
            FnInput::Typed { attrs, pat, ty } => FnInput::Typed { attrs, pat, ty: map_ty(ty, rule) },
            FnInput::Receiver(Receiver::Typed(t)) => FnInput::Receiver(Receiver::Typed(map_ty(t, rule))),
            FnInput::Receiver(rc) => FnInput::Receiver(rc),
        };
        r.push(e1);
        k = k + 1;
        assert(inputs_view(r@) =~= inputs_view(r0).push(e1@));
        assert(v@ =~= v0@.subrange(k as int, n as int));
    }
    r
}


// ---------------------------------------------------------------------------
// The receiver as a parameter.

/// The type of a receiver: `Self`, `&Self` / `&mut Self` with its
/// lifetime, or the type written.
pub open spec fn spec_receiver_ty(r: SpecReceiver) -> SpecTy {
    match r {
        SpecReceiver::Value => SpecTy::Path(
            SpecPath {
                qself: None,
                leading_colon: false,
                segments: seq![SpecSegment { ident: "Self"@, args: SpecArgs::Bare }],
            },
        ),
        SpecReceiver::Reference { lifetime, mutable } => SpecTy::Reference {
            lifetime,
            mutable,
            elem: Box::new(
                SpecTy::Path(
                    SpecPath {
                        qself: None,
                        leading_colon: false,
                        segments: seq![SpecSegment { ident: "Self"@, args: SpecArgs::Bare }],
                    },
                ),
            ),
        },
        SpecReceiver::Typed(t) => t,
    }
}

/// A parameter with a receiver written as the parameter `__co3_self` of the
/// receiver's type, carrying the attributes `rattrs`.
pub open spec fn spec_receiver_typed(i: SpecFnInput, rattrs: Seq<Attr>) -> SpecFnInput {
    match i {
        SpecFnInput::Receiver(r) => SpecFnInput::Typed { attrs: rattrs, pat: "__co3_self"@, ty: spec_receiver_ty(r) },
        _ => i,
    }
}

/// Whether a receiver comes before position `i`.
pub open spec fn receiver_before(s: Seq<SpecFnInput>, i: int) -> bool {
    exists|j: int| 0 <= j < i && #[trigger] s[j] is Receiver
}

/// The parameters with the receiver, wherever it stands, written as the
/// parameter `__co3_self` of the receiver's type; the receiver's attributes
/// `rattrs` go to the first receiver (a signature has one).
pub open spec fn spec_receivers_typed(s: Seq<SpecFnInput>, rattrs: Seq<Attr>) -> Seq<SpecFnInput> {
    Seq::new(
        s.len(),
        |i: int| spec_receiver_typed(s[i], if receiver_before(s, i) {
            Seq::empty()
        } else {
            rattrs
        }),
    )
}

/// A signature as a free function sees it: receivers become `__co3_self`
/// parameters; given the impl's self type, `Self` is written as that type
/// (outside tag ids) and then references to trait objects get parentheses.
pub open spec fn spec_normalize_fn_signature(sig: SpecSig, self_ty: Option<SpecTy>, rattrs: Seq<Attr>) -> SpecSig {
    let typed = SpecSig { inputs: spec_receivers_typed(sig.inputs, rattrs), ..sig };
    match self_ty {
        Some(st) => spec_map_sig(spec_map_sig(typed, SpecTyRule::Concretize(st)), SpecTyRule::Parenthesize),
        None => typed,
    }
}

pub(crate) fn receiver_ty(r: Receiver) -> (t: Ty)
    ensures
        t@ == spec_receiver_ty(r@),
{
    proof {
        reveal_strlit("Self");
    }
    let self_path = || -> (t: Ty)
        ensures
            t@ == SpecTy::Path(
                SpecPath {
                    qself: None,
                    leading_colon: false,
                    segments: seq![SpecSegment { ident: "Self"@, args: SpecArgs::Bare }],
                },
            ),
        {
            let segments = vec![PathSegment { ident: "Self".to_owned(), args: PathArgs::Bare }];
            assert(segments_view(segments@) =~= seq![SpecSegment { ident: "Self"@, args: SpecArgs::Bare }]);
            let p = TyPath { qself: None, leading_colon: false, segments };
            let t = Ty::Path(p);
            assert(t@ == SpecTy::Path(crate::types::path_view(p)));
            t
        };
    match r {
        Receiver::Value => self_path(),
        Receiver::Reference { lifetime, mutable } => Ty::Reference { lifetime, mutable, elem: Box::new(self_path()) },
        Receiver::Typed(t) => t,
    }
}

/// Writes a method signature as a free function sees it: the receiver
/// becomes the parameter `__co3_self` of the receiver's type with the
/// receiver's attributes `receiver_attrs`; given the impl's self type,
/// `Self` is written as that type everywhere but inside tag ids
/// (`Self::Assoc` as the self type's path continued, or `<SelfTy>::Assoc`),
/// and then every reference to a trait object gets parentheses.
pub fn normalize_fn_signature(sig: &mut FnSig, self_ty: Option<&Ty>, receiver_attrs: Vec<Attr>)
    ensures
        final(sig)@ == spec_normalize_fn_signature(
            old(sig)@,
            match self_ty {
                Some(t) => Some(t@),
                None => None,
            },
            receiver_attrs@,
        ),
{
    let mut taken = FnSig { generics: Vec::new(), where_clause: None, inputs: Vec::new(), output: None };
    std::mem::swap(&mut taken, sig);
    let FnSig { generics, where_clause, inputs, output } = taken;
    let ghost sv = inputs_view(inputs@);
    proof {
        reveal_strlit("__co3_self");
    }
    let mut rest = inputs;
    let mut out: Vec<FnInput> = Vec::new();
    let ghost total = rest@.len();
    assert(total <= usize::MAX) by {
        assert(rest.len() == total);
    }
    let ghost rv = receiver_attrs@;
    let mut pending: Option<Vec<Attr>> = Some(receiver_attrs);
    let mut i: usize = 0;
    while rest.len() > 0
        invariant
            sv.len() == total,
            total <= usize::MAX,
            i + rest@.len() == total,
            forall|j: int| 0 <= j < rest@.len() ==> (#[trigger] rest@[j])@ == sv[i + j],
            out@.len() == i,
            pending matches Some(v) ==> v@ == rv && !receiver_before(sv, i as int),
            pending is None ==> receiver_before(sv, i as int),
            forall|j: int| 0 <= j < i ==> (#[trigger] out@[j])@ == spec_receiver_typed(sv[j], if receiver_before(sv, j) {
                Seq::empty()
            } else {
                rv
            }),
        decreases rest@.len(),
    {
        let ghost before = rest@;
        assert(before[0]@ == sv[i + 0]);
        let first = rest.remove(0);
        assert(first@ == sv[i as int]);
        assert forall|j: int| 0 <= j < rest@.len() implies (#[trigger] rest@[j])@ == sv[(i + 1) + j] by {
            assert(rest@[j] == before[j + 1]);
            assert(before[j + 1]@ == sv[i + (j + 1)]);
        }
        let ghost was_pending = pending is Some;
        let e1 = match first {
            FnInput::Receiver(r) => {
                let attrs = match pending.take() {
                    Some(v) => v,
                    None => Vec::new(),
                };
                FnInput::Typed { attrs, pat: "__co3_self".to_owned(), ty: receiver_ty(r) }
            },
            other => other,
        };
        proof {
            if sv[i as int] is Receiver {
                assert(receiver_before(sv, i + 1));
            } else if was_pending {
                assert forall|j: int| 0 <= j < i + 1 implies !(#[trigger] sv[j] is Receiver) by {
                    if j < i {
                        assert(!receiver_before(sv, i as int));
                    }
                }
            } else {
                let j = choose|j: int| 0 <= j < i && #[trigger] sv[j] is Receiver;
                assert(sv[j] is Receiver);
            }
        }
        out.push(e1);
        i = i + 1;
    }
    let inputs = out;
    assert(inputs_view(inputs@) =~= spec_receivers_typed(sv, rv));
    let mut s = FnSig { generics, where_clause, inputs, output };
    match self_ty {
        Some(st) => {
            let conc = TyRule::Concretize(clone_ty(st));
            s = map_sig(s, &conc);
            s = map_sig(s, &TyRule::Parenthesize);
        },
        None => {},
    }
    *sig = s;
}

/// The tag ids `<dyn Self>::TAG` of a method signature in an impl whose self
/// type is `self_ty` (written `self_ty_text`) written with that type:
/// `<self_ty>::TAG` where it is a trait object, else `<dyn self_ty>::TAG`;
/// types are rewritten inner ones first, everywhere in the signature.
pub fn normalize_self_tag_ids(self_ty: &Ty, self_ty_text: &str, sig: &mut FnSig)
    requires
        tag_self_writable(self_ty@),
    ensures
        final(sig)@ == spec_map_sig(old(sig)@, SpecTyRule::SelfTag(self_ty@, self_ty_text@)),
{
    let mut taken = FnSig { generics: Vec::new(), where_clause: None, inputs: Vec::new(), output: None };
    std::mem::swap(&mut taken, sig);
    let rule = TyRule::SelfTag(clone_ty(self_ty), self_ty_text.to_owned());
    *sig = map_sig(taken, &rule);
}

fn map_sig(s: FnSig, rule: &TyRule) -> (r: FnSig)
    ensures
        r@ == spec_map_sig(s@, rule@),
{
    let FnSig { generics, where_clause, inputs, output } = s;
    let generics = map_generics(generics, rule);
    let where_clause = match where_clause {
        Some(w) => Some(map_predicates(w, rule)),
        None => None,
    };
    let inputs = map_inputs(inputs, rule);
    let output = match output {
        Some(t) => Some(map_ty(t, rule)),
        None => None,
    };
    FnSig { generics, where_clause, inputs, output }
}


// ---------------------------------------------------------------------------
// Putting the receiver back.

/// Whether the type is the plain path `Self`.
pub open spec fn is_self_path_ty(t: SpecTy) -> bool {
    t matches SpecTy::Path(p) && p.qself is None && !p.leading_colon && p.segments.len() == 1
        && p.segments[0].ident == "Self"@ && p.segments[0].args is Bare
}

/// The receiver that a parameter of type `t` stands for: `self` for
/// `Self`, `&'a [mut] self` for `&'a [mut] Self`, else `self: t`.
pub open spec fn spec_receiver_of(t: SpecTy) -> SpecReceiver {
    if is_self_path_ty(t) {
        SpecReceiver::Value
    } else {
        match t {
            SpecTy::Reference { lifetime, mutable, elem } => if is_self_path_ty(*elem) {
                SpecReceiver::Reference { lifetime, mutable }
            } else {
                SpecReceiver::Typed(t)
            },
            _ => SpecReceiver::Typed(t),
        }
    }
}

/// Whether a pattern, as written, binds the identifier `__co3_self`.
pub open spec fn names_co3_self(pat: Seq<char>) -> bool {
    pat == "__co3_self"@ || pat == "mut __co3_self"@ || pat == "ref __co3_self"@ || pat
        == "ref mut __co3_self"@
}

/// Whether the parameter is one that binds `__co3_self`.
pub open spec fn is_co3_self_input(i: SpecFnInput) -> bool {
    match i {
        SpecFnInput::Typed { pat, .. } => names_co3_self(pat),
        SpecFnInput::Receiver(_) => false,
    }
}

/// The first parameter from `i` on that binds `__co3_self`.
pub open spec fn spec_first_co3_self(s: Seq<SpecFnInput>, i: int) -> Option<int>
    decreases s.len() - i,
{
    if i < 0 || i >= s.len() {
        None
    } else if is_co3_self_input(s[i]) {
        Some(i)
    } else {
        spec_first_co3_self(s, i + 1)
    }
}

/// The parameters with the first one that binds `__co3_self` made the
/// receiver its type stands for, and the attributes it carried (which go to
/// the receiver); unchanged, with no attributes, where there is none.
pub open spec fn spec_restore_receiver(s: Seq<SpecFnInput>) -> (Seq<SpecFnInput>, Seq<Attr>) {
    match spec_first_co3_self(s, 0) {
        Some(j) => match s[j] {
            SpecFnInput::Typed { attrs, ty, .. } => (s.update(j, SpecFnInput::Receiver(spec_receiver_of(ty))), attrs),
            SpecFnInput::Receiver(_) => (s, Seq::empty()),
        },
        None => (s, Seq::empty()),
    }
}

fn is_self_path(t: &Ty) -> (r: bool)
    ensures
        r == is_self_path_ty(t@),
{
    match t {
        Ty::Path(p) => {
            let r = crate::types::path_is_ident(p, "Self");
            proof {
                if p.segments@.len() == 1 {
                    assert(p@.segments[0] == crate::types::SpecSegment {
                        ident: p.segments@[0].ident@,
                        args: p.segments@[0].args@,
                    });
                }
            }
            assert(t@ == SpecTy::Path(p@));
            r
        },
        _ => false,
    }
}

/// The receiver that a parameter of type `t` stands for.
fn receiver_of(t: Ty) -> (r: Receiver)
    ensures
        r@ == spec_receiver_of(t@),
{
    if is_self_path(&t) {
        return Receiver::Value;
    }
    match t {
        Ty::Reference { lifetime, mutable, elem } => {
            if is_self_path(&*elem) {
                Receiver::Reference { lifetime, mutable }
            } else {
                Receiver::Typed(Ty::Reference { lifetime, mutable, elem })
            }
        },
        other => Receiver::Typed(other),
    }
}

fn names_co3_self_exec(pat: &str) -> (r: bool)
    ensures
        r == names_co3_self(pat@),
{
    crate::text::str_eq(pat, "__co3_self") || crate::text::str_eq(pat, "mut __co3_self") || crate::text::str_eq(
        pat,
        "ref __co3_self",
    ) || crate::text::str_eq(pat, "ref mut __co3_self")
}

/// The first parameter that binds `__co3_self`.
fn find_co3_self(inputs: &Vec<FnInput>) -> (r: Option<usize>)
    ensures
        match r {
            Some(j) => j < inputs@.len() && spec_first_co3_self(inputs_view(inputs@), 0) == Some(j as int),
            None => spec_first_co3_self(inputs_view(inputs@), 0) is None,
        },
{
    let ghost sv = inputs_view(inputs@);
    let mut j: usize = 0;
    while j < inputs.len()
        invariant
            j <= inputs@.len(),
            sv == inputs_view(inputs@),
            spec_first_co3_self(sv, 0) == spec_first_co3_self(sv, j as int),
        decreases inputs@.len() - j,
    {
        assert(sv[j as int] == inputs@[j as int]@);
        let hit = match &inputs[j] {
            FnInput::Typed { pat, .. } => names_co3_self_exec(pat.as_str()),
            FnInput::Receiver(_) => false,
        };
        if hit {
            return Some(j);
        }
        j = j + 1;
    }
    None
}

/// Puts back the receiver that a method signature had before it was
/// written as a free function: the first parameter that binds `__co3_self`
/// becomes `self`, `&'a [mut] self` or `self: T` after its type; gives the
/// attributes that parameter carried, which belong to the receiver.
pub fn restore_synthetic_receiver(sig: &mut FnSig) -> (r: Vec<Attr>)
    ensures
        final(sig)@.generics == old(sig)@.generics,
        final(sig)@.where_clause == old(sig)@.where_clause,
        final(sig)@.output == old(sig)@.output,
        (final(sig)@.inputs, r@) == spec_restore_receiver(old(sig)@.inputs),
{
    let ghost sv = sig@.inputs;
    let j = match find_co3_self(&sig.inputs) {
        Some(j) => j,
        None => {
            return Vec::new();
        },
    };
    assert(spec_first_co3_self(sv, 0) == Some(j as int));
    proof {
        lemma_first_co3_self_hit(sv, 0);
    }
    let taken = sig.inputs.remove(j);
    assert(taken@ == sv[j as int]);
    match taken {
        FnInput::Typed { attrs, pat, ty } => {
            let ghost tv = ty@;
            let rcv = receiver_of(ty);
            let ghost rest = sig.inputs@;
            sig.inputs.insert(j, FnInput::Receiver(rcv));
            assert(inputs_view(sig.inputs@) =~= sv.update(j as int, SpecFnInput::Receiver(spec_receiver_of(tv))));
            attrs
        },
        FnInput::Receiver(rcv) => {
            assert(false);
            sig.inputs.insert(j, FnInput::Receiver(rcv));
            Vec::new()
        },
    }
}

/// The type of a receiver is read back as that receiver, unless it is
/// written `self: Self` or `self: &Self`, which read back as `self` and
/// `&self`.
pub open spec fn receiver_reads_back(r: SpecReceiver) -> bool {
    !(r matches SpecReceiver::Typed(t) && (is_self_path_ty(t) || (t matches SpecTy::Reference { elem, .. }
        && is_self_path_ty(*elem))))
}

/// Whether the parameters hold a receiver.
pub open spec fn has_receiver(s: Seq<SpecFnInput>) -> bool {
    exists|k: int| 0 <= k < s.len() && #[trigger] s[k] is Receiver
}

/// Putting the receiver back undoes writing it as `__co3_self`: for
/// parameters with at most one receiver, wherever it stands, written `self`,
/// `&'a self`, `&'a mut self` or `self: T` (other than `Self` and `&Self`),
/// and no parameter of their own named `__co3_self`, the parameters and the
/// receiver's attributes come back as they were.
pub proof fn lemma_restore_undoes_receiver_rewrite(s: Seq<SpecFnInput>, rattrs: Seq<Attr>)
    requires
        forall|i: int, j: int|
            0 <= i < s.len() && 0 <= j < s.len() && #[trigger] s[i] is Receiver && #[trigger] s[j] is Receiver
                ==> i == j,
        forall|i: int| 0 <= i < s.len() ==> !is_co3_self_input(#[trigger] s[i]),
        forall|i: int| 0 <= i < s.len() && #[trigger] s[i] is Receiver ==> receiver_reads_back(s[i]->Receiver_0),
    ensures
        spec_restore_receiver(spec_receivers_typed(s, rattrs)) == (s, if has_receiver(s) {
            rattrs
        } else {
            Seq::<Attr>::empty()
        }),
{
    reveal_strlit("__co3_self");
    reveal_strlit("Self");
    let t = spec_receivers_typed(s, rattrs);
    if has_receiver(s) {
        let k = choose|k: int| 0 <= k < s.len() && #[trigger] s[k] is Receiver;
        let r = s[k]->Receiver_0;
        assert(!receiver_before(s, k));
        assert(is_co3_self_input(t[k]));
        assert forall|i: int| 0 <= i < s.len() && i != k implies #[trigger] t[i] == s[i] by {
            assert(!(s[i] is Receiver));
        }
        lemma_first_co3_self_at(t, 0, k);
        assert(spec_receiver_of(spec_receiver_ty(r)) == r);
        assert(t.update(k, SpecFnInput::Receiver(r)) =~= s);
    } else {
        assert forall|i: int| 0 <= i < s.len() implies #[trigger] t[i] == s[i] by {
            assert(!(s[i] is Receiver));
        }
        assert(t =~= s);
        assert forall|i: int| 0 <= i <= s.len() implies spec_first_co3_self(s, i) is None by {
            lemma_first_co3_self_none(s, i);
        }
    }
}

proof fn lemma_first_co3_self_at(s: Seq<SpecFnInput>, i: int, k: int)
    requires
        0 <= i <= k < s.len(),
        is_co3_self_input(s[k]),
        forall|m: int| i <= m < k ==> !is_co3_self_input(#[trigger] s[m]),
    ensures
        spec_first_co3_self(s, i) == Some(k),
    decreases k - i,
{
    if i < k {
        lemma_first_co3_self_at(s, i + 1, k);
    }
}

proof fn lemma_first_co3_self_hit(s: Seq<SpecFnInput>, i: int)
    requires
        0 <= i,
    ensures
        spec_first_co3_self(s, i) matches Some(j) ==> i <= j < s.len() && is_co3_self_input(s[j]),
    decreases s.len() - i,
{
    if i < s.len() && !is_co3_self_input(s[i]) {
        lemma_first_co3_self_hit(s, i + 1);
    }
}

proof fn lemma_first_co3_self_none(s: Seq<SpecFnInput>, i: int)
    requires
        0 <= i <= s.len(),
        forall|k: int| 0 <= k < s.len() ==> !is_co3_self_input(#[trigger] s[k]),
    ensures
        spec_first_co3_self(s, i) is None,
    decreases s.len() - i,
{
    if i < s.len() {
        lemma_first_co3_self_none(s, i + 1);
    }
}

} // verus!
