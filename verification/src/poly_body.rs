//! Rewriting the body of a polymorphic export: a turbofish on a name,
//! `name::<X>`, is dropped where the name is a value, and the whole of it
//! replaced by the selected type where the name is a selector; inside
//! groups too.
use vstd::prelude::*;
use crate::body::{is_ident_tok, is_punct_tok, lemma_angle_close_bounds, spec_angle_close};
use crate::preprocess::append_toks;
use crate::text::str_eq;
use crate::tokens::{SpecTok, Tok, toks_view};

verus! {

/// Whether `name :: < Ident` starts at `i`, with at least one token after
/// it; the name where it does.
pub open spec fn turbofish_base(s: Seq<SpecTok>, i: int) -> Option<Seq<char>> {
    if 0 <= i && i + 4 < s.len() && s[i] is Ident && is_punct_tok(s[i + 1], ':') && is_punct_tok(s[i + 2], ':')
        && is_punct_tok(s[i + 3], '<') && s[i + 4] is Ident {
        match s[i] {
            SpecTok::Ident(n) => Some(n),
            _ => None,
        }
    } else {
        None
    }
}

/// The type selected for a name: that of the first pair with that name.
pub open spec fn spec_selected(selectors: Seq<(Seq<char>, Seq<SpecTok>)>, name: Seq<char>, n: int) -> Option<Seq<SpecTok>>
    decreases n,
{
    if n <= 0 || n > selectors.len() {
        None
    } else {
        match spec_selected(selectors, name, n - 1) {
            Some(t) => Some(t),
            None => if selectors[n - 1].0 == name {
                Some(selectors[n - 1].1)
            } else {
                None
            },
        }
    }
}

/// The tokens from `i` on, rewritten: `name::<X>` with a single token
/// between the angles becomes `name` where the name is one of `values`,
/// else the type selected for the name where there is one; every other
/// token stays, groups rewritten inside.
pub open spec fn spec_poly_rewrite_from(
    s: Seq<SpecTok>,
    i: int,
    values: Seq<Seq<char>>,
    selectors: Seq<(Seq<char>, Seq<SpecTok>)>,
) -> Seq<SpecTok>
    decreases s, s.len() - i,
{
    if i < 0 || i >= s.len() {
        Seq::empty()
    } else {
        let rest = spec_poly_rewrite_from(s, i + 1, values, selectors);
        match turbofish_base(s, i) {
            Some(base) => {
                let j = spec_angle_close(s, i + 5, 1);
                proof {
                    lemma_angle_close_bounds(s, i + 5, 1);
                }
                let after = if j < s.len() {
                    spec_poly_rewrite_from(s, j + 1, values, selectors)
                } else {
                    Seq::empty()
                };
                if j == i + 5 && values.contains(base) {
                    seq![s[i]] + after
                } else if j == i + 5 && spec_selected(selectors, base, selectors.len() as int) is Some {
                    spec_selected(selectors, base, selectors.len() as int)->0 + after
                } else {
                    seq![s[i]] + rest
                }
            },
            None => seq![spec_poly_rewrite_tok(s[i], values, selectors)] + rest,
        }
    }
}

/// One token rewritten.
pub open spec fn spec_poly_rewrite_tok(t: SpecTok, values: Seq<Seq<char>>, selectors: Seq<(Seq<char>, Seq<SpecTok>)>) -> SpecTok
    decreases t, 0int,
{
    match t {
        SpecTok::Group(d, inner) => SpecTok::Group(d, spec_poly_rewrite_from(inner, 0, values, selectors)),
        _ => t,
    }
}

/// The values of the selector pairs.
pub open spec fn selectors_view(s: Seq<(String, Vec<Tok>)>) -> Seq<(Seq<char>, Seq<SpecTok>)> {
    Seq::new(s.len(), |i: int| (s[i].0@, toks_view(s[i].1@)))
}

/// The values of the names.
pub open spec fn names_view(s: Seq<String>) -> Seq<Seq<char>> {
    Seq::new(s.len(), |i: int| s[i]@)
}

fn is_value(values: &Vec<String>, name: &str) -> (r: bool)
    ensures
        r == names_view(values@).contains(name@),
{
    let ghost nv = names_view(values@);
    let mut i: usize = 0;
    while i < values.len()
        invariant
            i <= values@.len(),
            nv == names_view(values@),
            forall|j: int| 0 <= j < i ==> nv[j] != name@,
        decreases values@.len() - i,
    {
        if str_eq(values[i].as_str(), name) {
            assert(nv[i as int] == name@);
            return true;
        }
        i = i + 1;
    }
    false
}

fn selected(selectors: &Vec<(String, Vec<Tok>)>, name: &str) -> (r: Option<Vec<Tok>>)
    ensures
        match r {
            Some(t) => spec_selected(selectors_view(selectors@), name@, selectors@.len() as int) == Some(toks_view(t@)),
            None => spec_selected(selectors_view(selectors@), name@, selectors@.len() as int) is None,
        },
{
    let ghost sv = selectors_view(selectors@);
    let mut i: usize = 0;
    while i < selectors.len()
        invariant
            i <= selectors@.len(),
            sv == selectors_view(selectors@),
            spec_selected(sv, name@, i as int) is None,
        decreases selectors@.len() - i,
    {
        if str_eq(selectors[i].0.as_str(), name) {
            let mut t: Vec<Tok> = Vec::new();
            append_toks(&mut t, &selectors[i].1);
            assert(toks_view(t@) =~= sv[i as int].1);
            proof {
                lemma_selected_found(sv, name@, i as int);
            }
            return Some(t);
        }
        i = i + 1;
    }
    None
}

proof fn lemma_selected_found(s: Seq<(Seq<char>, Seq<SpecTok>)>, name: Seq<char>, k: int)
    requires
        0 <= k < s.len(),
        spec_selected(s, name, k) is None,
        s[k].0 == name,
    ensures
        forall|n: int| k < n <= s.len() ==> #[trigger] spec_selected(s, name, n) == Some(s[k].1),
{
    assert forall|n: int| k < n <= s.len() implies #[trigger] spec_selected(s, name, n) == Some(s[k].1) by {
        lemma_selected_stays(s, name, k, n);
    }
}

proof fn lemma_selected_stays(s: Seq<(Seq<char>, Seq<SpecTok>)>, name: Seq<char>, k: int, n: int)
    requires
        0 <= k < n <= s.len(),
        spec_selected(s, name, k) is None,
        s[k].0 == name,
    ensures
        spec_selected(s, name, n) == Some(s[k].1),
    decreases n,
{
    if n > k + 1 {
        lemma_selected_stays(s, name, k, n - 1);
    }
}

fn is_punct_char(t: &Tok, c: char) -> (r: bool)
    ensures
        r == is_punct_tok(t@, c),
{
    match t {
        Tok::Punct(p, _) => *p == c,
        _ => false,
    }
}

fn angle_close(items: &Vec<Tok>, start: usize) -> (r: usize)
    requires
        1 <= start <= items@.len(),
    ensures
        r == spec_angle_close(toks_view(items@), start as int, 1),
{
    let ghost sv = toks_view(items@);
    let mut end = start;
    let mut depth: usize = 1;
    while end < items.len()
        invariant
            1 <= start <= end <= items@.len(),
            1 <= depth <= end - start + 1,
            sv == toks_view(items@),
            spec_angle_close(sv, end as int, depth as int) == spec_angle_close(sv, start as int, 1),
        decreases items@.len() - end,
    {
        assert(sv[end as int] == items@[end as int]@);
        if is_punct_char(&items[end], '<') {
            depth = depth + 1;
        } else if is_punct_char(&items[end], '>') {
            if depth - 1 == 0 {
                return end;
            }
            depth = depth - 1;
        }
        end = end + 1;
    }
    items.len()
}

/// Rewrites the body of a polymorphic export (see `spec_poly_rewrite_from`)
/// given the names of its values and the type selected for each selector.
pub fn rewrite_dispatch_body(tokens: &Vec<Tok>, values: &Vec<String>, selectors: &Vec<(String, Vec<Tok>)>) -> (r: Vec<Tok>)
    ensures
        toks_view(r@) == spec_poly_rewrite_from(toks_view(tokens@), 0, names_view(values@), selectors_view(selectors@)),
    decreases tokens,
{
    let ghost sv = toks_view(tokens@);
    let ghost vv = names_view(values@);
    let ghost selv = selectors_view(selectors@);
    let mut out: Vec<Tok> = Vec::new();
    let mut idx: usize = 0;
    assert(toks_view(out@) + spec_poly_rewrite_from(sv, 0, vv, selv) =~= spec_poly_rewrite_from(sv, 0, vv, selv));
    while idx < tokens.len()
        invariant
            idx <= tokens@.len(),
            sv == toks_view(tokens@),
            vv == names_view(values@),
            selv == selectors_view(selectors@),
            toks_view(out@) + spec_poly_rewrite_from(sv, idx as int, vv, selv) == spec_poly_rewrite_from(sv, 0, vv, selv),
        decreases tokens@.len() - idx,
    {
        let ghost before = toks_view(out@);
        proof {
            assert forall|k: int| 0 <= k < sv.len() implies sv[k] == #[trigger] tokens@[k]@ by {}
        }
        let base: Option<&String> = if tokens.len() - idx > 4 && is_punct_char(&tokens[idx + 1], ':')
            && is_punct_char(&tokens[idx + 2], ':') && is_punct_char(&tokens[idx + 3], '<') && match &tokens[idx + 4] {
            Tok::Ident(_) => true,
            _ => false,
        } {
            match &tokens[idx] {
                Tok::Ident(n) => Some(n),
                _ => None,
            }
        } else {
            None
        };
        let mut handled = false;
        match base {
            Some(name) => {
                assert(turbofish_base(sv, idx as int) == Some(name@));
                let end = angle_close(tokens, idx + 5);
                proof {
                    lemma_angle_close_bounds(sv, idx + 5, 1);
                }
                if end == idx + 5 {
                    if is_value(values, name.as_str()) {
                        out.push(Tok::Ident(name.clone()));
                        assert(toks_view(out@) =~= before + seq![sv[idx as int]]);
                        idx = if end < tokens.len() { end + 1 } else { tokens.len() };
                        assert(toks_view(out@) + spec_poly_rewrite_from(sv, idx as int, vv, selv) =~= spec_poly_rewrite_from(sv, 0, vv, selv));
                        handled = true;
                    } else {
                        match selected(selectors, name.as_str()) {
                            Some(t) => {
                                append_toks(&mut out, &t);
                                idx = if end < tokens.len() { end + 1 } else { tokens.len() };
                                assert(toks_view(out@) + spec_poly_rewrite_from(sv, idx as int, vv, selv) =~= spec_poly_rewrite_from(sv, 0, vv, selv));
                                handled = true;
                            },
                            None => {},
                        }
                    }
                }
                if !handled {
                    out.push(Tok::Ident(name.clone()));
                    assert(toks_view(out@) =~= before + seq![sv[idx as int]]);
                    idx = idx + 1;
                    assert(toks_view(out@) + spec_poly_rewrite_from(sv, idx as int, vv, selv) =~= spec_poly_rewrite_from(sv, 0, vv, selv));
                }
            },
            None => {
                assert(turbofish_base(sv, idx as int) is None);
                let t = match &tokens[idx] {
                    Tok::Group(d, inner) => {
                        proof {
                            assert(decreases_to!(*tokens => tokens@));
                            assert(decreases_to!(tokens@ => tokens@[idx as int]));
                            assert(decreases_to!(tokens@[idx as int] => tokens@[idx as int]->Group_1));
                        }
                        Tok::Group(*d, rewrite_dispatch_body(inner, values, selectors))
                    },
                    Tok::Ident(name) => Tok::Ident(name.clone()),
                    Tok::Punct(c, j) => Tok::Punct(*c, *j),
                    Tok::Literal(text) => Tok::Literal(text.clone()),
                };
                assert(t@ == spec_poly_rewrite_tok(sv[idx as int], vv, selv));
                out.push(t);
                assert(toks_view(out@) =~= before.push(t@));
                idx = idx + 1;
                assert(toks_view(out@) + spec_poly_rewrite_from(sv, idx as int, vv, selv) =~= spec_poly_rewrite_from(sv, 0, vv, selv));
            },
        }
    }
    assert(toks_view(out@) =~= toks_view(out@) + spec_poly_rewrite_from(sv, idx as int, vv, selv));
    out
}

} // verus!
