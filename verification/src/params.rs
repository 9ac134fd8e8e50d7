//! Rewriting the parameter list of a signature before it is parsed: a
//! `move` parameter is marked `#[by_val]`, and the receiver becomes the
//! parameter `__co3_self` of the receiver's type.
use vstd::prelude::*;
use crate::tokens::{Delimiter, SpecTok, Tok, toks_view};
use crate::preprocess::{
    append_toks, copy_range, ident_is, join_parts, join_with, parts_view, punct_is, split_ranges_exec,
    split_top_level,
};
use crate::text::str_eq;

verus! {

/// Where the outer attributes `#[...]` at the start of a parameter, from
/// `i` on, end.
pub open spec fn spec_attrs_end(p: Seq<SpecTok>, i: int) -> int
    decreases p.len() - i,
{
    if 0 <= i && i + 1 < p.len() && punct_is(p[i], '#') && p[i + 1] matches SpecTok::Group(Delimiter::Bracket, _) {
        spec_attrs_end(p, i + 2)
    } else {
        i
    }
}

/// Whether the tokens inside an attribute's brackets are `by_val`, possibly
/// with arguments.
pub open spec fn is_by_val_group(g: Seq<SpecTok>) -> bool {
    g.len() >= 1 && ident_is(g[0], "by_val"@) && !(g.len() >= 2 && punct_is(g[1], ':'))
}

/// Whether the token is the bracket group of a `#[by_val]` attribute.
pub open spec fn is_by_val_bracket(t: SpecTok) -> bool {
    match t {
        SpecTok::Group(Delimiter::Bracket, g) => is_by_val_group(g),
        _ => false,
    }
}

/// Whether one of the tokens before `e` is a `#[by_val]` attribute's group.
pub open spec fn spec_has_by_val(p: Seq<SpecTok>, e: int) -> bool {
    exists|j: int| 0 <= j < e && #[trigger] is_by_val_bracket(p[j])
}

/// The attribute `#[by_val]`.
pub open spec fn by_val_attr() -> Seq<SpecTok> {
    seq![SpecTok::Punct('#', false), SpecTok::Group(Delimiter::Bracket, seq![SpecTok::Ident("by_val"@)])]
}

/// Where the receiver `&['a] [mut] self` starting at the `&` of `b` ends
/// before `self`, if `b` is exactly such a receiver.
pub open spec fn spec_ref_receiver_end(b: Seq<SpecTok>) -> Option<int> {
    if b.len() >= 2 && punct_is(b[0], '&') {
        let k1 = if b.len() >= 3 && punct_is(b[1], '\'') && b[2] is Ident {
            3int
        } else {
            1int
        };
        let k = if k1 < b.len() && ident_is(b[k1], "mut"@) {
            k1 + 1
        } else {
            k1
        };
        if k + 1 == b.len() && ident_is(b[k], "self"@) {
            Some(k)
        } else {
            None
        }
    } else {
        None
    }
}

/// The name and the colon that the receiver's parameter takes.
pub open spec fn self_param_head() -> Seq<SpecTok> {
    seq![SpecTok::Ident("__co3_self"@), SpecTok::Punct(':', false)]
}

/// The type `Self`.
pub open spec fn self_ty_toks() -> Seq<SpecTok> {
    seq![SpecTok::Ident("Self"@)]
}

/// Where the parameter proper starts: after its attributes and a `move`.
pub open spec fn spec_param_start(p: Seq<SpecTok>) -> int {
    let e = spec_attrs_end(p, 0);
    if e < p.len() && ident_is(p[e], "move"@) {
        e + 1
    } else {
        e
    }
}

/// The attributes of a parameter, with `#[by_val]` added where a `move`
/// marks it and it has none.
pub open spec fn spec_param_attrs(p: Seq<SpecTok>) -> Seq<SpecTok> {
    let e = spec_attrs_end(p, 0);
    let mv = e < p.len() && ident_is(p[e], "move"@);
    p.subrange(0, e) + if mv && !spec_has_by_val(p, e) {
        by_val_attr()
    } else {
        Seq::empty()
    }
}

/// A parameter proper rewritten: `&'a mut self` becomes
/// `__co3_self: &'a mut Self`, `self` becomes `__co3_self: Self`, `self: T`
/// becomes `__co3_self: T`; any other stays as written.
pub open spec fn spec_rewrite_body(b: Seq<SpecTok>) -> Seq<SpecTok> {
    match spec_ref_receiver_end(b) {
        Some(k) => self_param_head() + b.subrange(0, k) + self_ty_toks(),
        None => if b.len() == 1 && ident_is(b[0], "self"@) {
            self_param_head() + self_ty_toks()
        } else if b.len() >= 2 && ident_is(b[0], "self"@) && punct_is(b[1], ':') {
            seq![SpecTok::Ident("__co3_self"@)] + b.subrange(1, b.len() as int)
        } else {
            b
        },
    }
}

/// One parameter rewritten: its attributes stay, a `move` before it is
/// dropped and the parameter marked `#[by_val]` (unless it is already), and
/// the parameter proper is rewritten.
pub open spec fn spec_rewrite_param(p: Seq<SpecTok>) -> Seq<SpecTok> {
    spec_param_attrs(p) + spec_rewrite_body(p.subrange(spec_param_start(p), p.len() as int))
}

/// The parameters of a list: its parts between commas outside angle
/// brackets, a trailing comma ending the last one.
pub open spec fn spec_params(s: Seq<SpecTok>) -> Seq<Seq<SpecTok>> {
    let rs = split_top_level(s, ',');
    let parts = Seq::new(rs.len(), |k: int| s.subrange(rs[k].0, rs[k].1));
    if parts.len() > 0 && parts.last().len() == 0 {
        parts.drop_last()
    } else {
        parts
    }
}

/// A parameter list with each parameter rewritten, joined by commas.
pub open spec fn spec_rewrite_params(s: Seq<SpecTok>) -> Seq<SpecTok> {
    let ps = spec_params(s);
    join_with(Seq::new(ps.len(), |k: int| spec_rewrite_param(ps[k])), SpecTok::Punct(',', false))
}

fn punct_at(p: &Vec<Tok>, i: usize, c: char) -> (r: bool)
    ensures
        r == (i < p@.len() && punct_is(toks_view(p@)[i as int], c)),
{
    if i >= p.len() {
        return false;
    }
    assert(toks_view(p@)[i as int] == p@[i as int]@);
    match &p[i] {
        Tok::Punct(x, _) => *x == c,
        _ => false,
    }
}

fn ident_at(p: &Vec<Tok>, i: usize, name: &str) -> (r: bool)
    ensures
        r == (i < p@.len() && ident_is(toks_view(p@)[i as int], name@)),
{
    if i >= p.len() {
        return false;
    }
    assert(toks_view(p@)[i as int] == p@[i as int]@);
    match &p[i] {
        Tok::Ident(x) => str_eq(x.as_str(), name),
        _ => false,
    }
}

fn bracket_at(p: &Vec<Tok>, i: usize) -> (r: bool)
    requires
        i < p@.len(),
    ensures
        r == (toks_view(p@)[i as int] matches SpecTok::Group(Delimiter::Bracket, _)),
{
    assert(toks_view(p@)[i as int] == p@[i as int]@);
    match &p[i] {
        Tok::Group(Delimiter::Bracket, _) => true,
        _ => false,
    }
}

/// Where the attributes at the start of the parameter end, and whether one
/// of them is `#[by_val]`.
fn attrs_end(p: &Vec<Tok>) -> (r: (usize, bool))
    ensures
        r.0 as int == spec_attrs_end(toks_view(p@), 0),
        r.0 <= p@.len(),
        r.1 == spec_has_by_val(toks_view(p@), r.0 as int),
{
    let ghost sv = toks_view(p@);
    let mut i: usize = 0;
    let mut found = false;
    proof {
        reveal_strlit("by_val");
    }
    while i < p.len() && i + 1 < p.len() && punct_at(p, i, '#') && bracket_at(p, i + 1)
        invariant
            sv == toks_view(p@),
            i <= p@.len(),
            spec_attrs_end(sv, 0) == spec_attrs_end(sv, i as int),
            found == spec_has_by_val(sv, i as int),
        decreases p@.len() - i,
    {
        assert(sv[i + 1] == p@[i + 1]@);
        assert(sv[i as int] == p@[i as int]@);
        let g = match &p[i + 1] {
            Tok::Group(_, g) => g,
            _ => {
                assert(false);
                return (0, false);
            },
        };
        let hit = ident_at(g, 0, "by_val") && !punct_at(g, 1, ':');
        proof {
            if hit {
                assert(is_by_val_bracket(sv[i + 1]));
            }
            assert(spec_has_by_val(sv, i + 2) == (spec_has_by_val(sv, i as int) || hit)) by {
                if spec_has_by_val(sv, i + 2) && !spec_has_by_val(sv, i as int) {
                    let j = choose|j: int| 0 <= j < i + 2 && #[trigger] is_by_val_bracket(sv[j]);
                    assert(j == i + 1);
                }
            }
        }
        found = found || hit;
        i = i + 2;
    }
    (i, found)
}

/// Where `self` stands, where the tokens from `start` on are exactly a
/// receiver `&['a] [mut] self`.
fn ref_receiver_end(p: &Vec<Tok>, start: usize) -> (r: Option<usize>)
    requires
        start <= p@.len(),
    ensures
        match r {
            Some(k) => start <= k < p@.len() && spec_ref_receiver_end(toks_view(p@).subrange(start as int, p@.len() as int)) == Some(k - start),
            None => spec_ref_receiver_end(toks_view(p@).subrange(start as int, p@.len() as int)) is None,
        },
{
    let ghost sv = toks_view(p@);
    let ghost b = sv.subrange(start as int, sv.len() as int);
    let n = p.len();
    proof {
        reveal_strlit("self");
        reveal_strlit("mut");
    }
    if !(n - start >= 2 && punct_at(p, start, '&')) {
        return None;
    }
    let k1 = if n - start >= 3 && punct_at(p, start + 1, '\'') && match &p[start + 2] {
        Tok::Ident(_) => true,
        _ => false,
    } {
        assert(sv[start + 2] == p@[start + 2]@);
        start + 3
    } else {
        assert(n - start >= 3 ==> sv[start + 2] == p@[start + 2]@);
        start + 1
    };
    let k = if k1 < n && ident_at(p, k1, "mut") { k1 + 1 } else { k1 };
    if k < n && n - k == 1 && ident_at(p, k, "self") {
        Some(k)
    } else {
        None
    }
}

/// The attributes of a parameter as rewritten, and where the parameter
/// proper starts.
fn param_attrs(p: &Vec<Tok>) -> (r: (Vec<Tok>, usize))
    ensures
        toks_view(r.0@) == spec_param_attrs(toks_view(p@)),
        r.1 as int == spec_param_start(toks_view(p@)),
        r.1 <= p@.len(),
{
    let ghost sv = toks_view(p@);
    let n = p.len();
    let (e, has_by_val) = attrs_end(p);
    let mut out = copy_range(p, 0, e);
    let mv = ident_at(p, e, "move");
    proof {
        reveal_strlit("by_val");
    }
    if mv && !has_by_val {
        let ghost before = toks_view(out@);
        out.push(Tok::Punct('#', false));
        let inner: Vec<Tok> = vec![Tok::Ident(String::from_str("by_val"))];
        out.push(Tok::Group(Delimiter::Bracket, inner));
        assert(toks_view(inner@) =~= seq![SpecTok::Ident("by_val"@)]);
        assert(toks_view(out@) =~= before + by_val_attr());
    } else {
        assert(toks_view(out@) =~= toks_view(out@) + Seq::<SpecTok>::empty());
    }
    let start = if mv { e + 1 } else { e };
    (out, start)
}

/// Rewrites the parameter proper, from `start` on.
fn rewrite_body(p: &Vec<Tok>, start: usize) -> (r: Vec<Tok>)
    requires
        start <= p@.len(),
    ensures
        toks_view(r@) == spec_rewrite_body(toks_view(p@).subrange(start as int, p@.len() as int)),
{
    let ghost sv = toks_view(p@);
    let ghost b = sv.subrange(start as int, sv.len() as int);
    let n = p.len();
    proof {
        reveal_strlit("__co3_self");
        reveal_strlit("Self");
        reveal_strlit("self");
    }
    let mut out: Vec<Tok> = Vec::new();
    match ref_receiver_end(p, start) {
        Some(k) => {
            out.push(Tok::Ident(String::from_str("__co3_self")));
            out.push(Tok::Punct(':', false));
            assert(toks_view(out@) =~= self_param_head());
            let amp = copy_range(p, start, k);
            append_toks(&mut out, &amp);
            let ghost mid = toks_view(out@);
            out.push(Tok::Ident(String::from_str("Self")));
            assert(toks_view(out@) =~= mid.push(SpecTok::Ident("Self"@)));
            assert(b.subrange(0, k - start) =~= sv.subrange(start as int, k as int));
            assert(toks_view(out@) =~= self_param_head() + b.subrange(0, k - start) + self_ty_toks());
        },
        None => {
            let is_self = ident_at(p, start, "self");
            if is_self && n - start == 1 {
                out.push(Tok::Ident(String::from_str("__co3_self")));
                out.push(Tok::Punct(':', false));
                out.push(Tok::Ident(String::from_str("Self")));
                assert(toks_view(out@) =~= self_param_head() + self_ty_toks());
            } else if is_self && n - start >= 2 && punct_at(p, start + 1, ':') {
                out.push(Tok::Ident(String::from_str("__co3_self")));
                let tail = copy_range(p, start + 1, n);
                append_toks(&mut out, &tail);
                assert(b.subrange(1, b.len() as int) =~= sv.subrange(start + 1, n as int));
                assert(toks_view(out@) =~= seq![SpecTok::Ident("__co3_self"@)] + b.subrange(1, b.len() as int));
            } else {
                out = copy_range(p, start, n);
            }
        },
    }
    out
}

/// Rewrites one parameter.
fn rewrite_param(p: &Vec<Tok>) -> (r: Vec<Tok>)
    ensures
        toks_view(r@) == spec_rewrite_param(toks_view(p@)),
{
    let (mut out, start) = param_attrs(p);
    let body = rewrite_body(p, start);
    append_toks(&mut out, &body);
    out
}

/// Rewrites a parameter list: a `move` parameter is marked `#[by_val]` and
/// the receiver becomes the parameter `__co3_self` of the receiver's type;
/// the parameters are joined by commas, a trailing comma dropped.
pub fn rewrite_receiver_params(tokens: &Vec<Tok>) -> (r: Vec<Tok>)
    ensures
        toks_view(r@) == spec_rewrite_params(toks_view(tokens@)),
{
    let ghost sv = toks_view(tokens@);
    let rs = split_ranges_exec(tokens, ',');
    let ghost srs = split_top_level(sv, ',');
    let ghost parts = Seq::new(srs.len(), |k: int| sv.subrange(srs[k].0, srs[k].1));
    let ghost ps = spec_params(sv);
    let count = if rs.len() > 0 && rs[rs.len() - 1].0 == rs[rs.len() - 1].1 {
        rs.len() - 1
    } else {
        rs.len()
    };
    assert(ps.len() == count);
    let mut out_parts: Vec<Vec<Tok>> = Vec::new();
    let mut k: usize = 0;
    while k < count
        invariant
            k <= count <= rs@.len(),
            sv == toks_view(tokens@),
            ps == spec_params(sv),
            ps.len() == count,
            rs@.len() == srs.len(),
            srs == split_top_level(sv, ','),
            forall|j: int| 0 <= j < rs@.len() ==> (rs@[j].0 as int, rs@[j].1 as int) == #[trigger] srs[j],
            crate::preprocess::ranges_within(srs, sv.len() as int),
            forall|j: int| 0 <= j < count ==> #[trigger] ps[j] == sv.subrange(srs[j].0, srs[j].1),
            out_parts@.len() == k,
            forall|j: int| 0 <= j < k ==> toks_view(#[trigger] out_parts@[j]@) == spec_rewrite_param(ps[j]),
        decreases count - k,
    {
        let (a, z) = rs[k];
        assert((a as int, z as int) == srs[k as int]);
        let part = copy_range(tokens, a, z);
        out_parts.push(rewrite_param(&part));
        k = k + 1;
    }
    let joined = join_parts(&out_parts, ',');
    assert(parts_view(out_parts@) =~= Seq::new(ps.len(), |j: int| spec_rewrite_param(ps[j])));
    joined
}

} // verus!
