//! Rewriting the tokens of a provided method body so that it can stand in a
//! free function whose receiver parameter is named `self_`.
use vstd::prelude::*;
use crate::text::str_eq;
use crate::tokens::{Delimiter, SpecTok, Tok, tok_view, toks_view};

verus! {

/// Whether the token is the identifier `name`.
pub open spec fn is_ident_tok(t: SpecTok, name: Seq<char>) -> bool {
    t matches SpecTok::Ident(s) && s == name
}

/// Whether the token is the punctuation `c`.
pub open spec fn is_punct_tok(t: SpecTok, c: char) -> bool {
    t matches SpecTok::Punct(p, _) && p == c
}

/// Whether `self :: < Ident` starts at `i`, with at least one token after it.
pub open spec fn is_self_turbofish(s: Seq<SpecTok>, i: int) -> bool {
    &&& 0 <= i
    &&& i + 4 < s.len()
    &&& is_ident_tok(s[i], "self"@)
    &&& is_punct_tok(s[i + 1], ':')
    &&& is_punct_tok(s[i + 2], ':')
    &&& is_punct_tok(s[i + 3], '<')
    &&& s[i + 4] is Ident
}

/// The index of the `>` that brings the count of open `<` from `depth` down
/// to zero, looking from `end` on, or the length where there is none.
pub open spec fn spec_angle_close(s: Seq<SpecTok>, end: int, depth: int) -> int
    decreases s.len() - end,
{
    if end < 0 || end >= s.len() {
        s.len() as int
    } else if is_punct_tok(s[end], '<') {
        spec_angle_close(s, end + 1, depth + 1)
    } else if is_punct_tok(s[end], '>') {
        if depth - 1 == 0 {
            end
        } else {
            spec_angle_close(s, end + 1, depth - 1)
        }
    } else {
        spec_angle_close(s, end + 1, depth)
    }
}

/// The closing `>` is found at or after `end`.
pub proof fn lemma_angle_close_bounds(s: Seq<SpecTok>, end: int, depth: int)
    requires
        0 <= end <= s.len(),
    ensures
        end <= spec_angle_close(s, end, depth) <= s.len(),
    decreases s.len() - end,
{
    if end < s.len() {
        if is_punct_tok(s[end], '<') {
            lemma_angle_close_bounds(s, end + 1, depth + 1);
        } else if is_punct_tok(s[end], '>') {
            if depth - 1 != 0 {
                lemma_angle_close_bounds(s, end + 1, depth - 1);
            }
        } else {
            lemma_angle_close_bounds(s, end + 1, depth);
        }
    }
}

/// The tokens from `i` on, rewritten: `self::<...>` (up to its closing `>`)
/// and every `self` become `self_`, inside groups too.
pub open spec fn spec_rewrite_from(s: Seq<SpecTok>, i: int) -> Seq<SpecTok>
    decreases s, s.len() - i,
{
    if i < 0 || i >= s.len() {
        Seq::empty()
    } else if is_self_turbofish(s, i) {
        let j = spec_angle_close(s, i + 5, 1);
        proof {
            lemma_angle_close_bounds(s, i + 5, 1);
        }
        if j >= s.len() {
            seq![SpecTok::Ident("self_"@)]
        } else {
            seq![SpecTok::Ident("self_"@)] + spec_rewrite_from(s, j + 1)
        }
    } else {
        seq![spec_rewrite_tok(s[i])] + spec_rewrite_from(s, i + 1)
    }
}

/// One token rewritten.
pub open spec fn spec_rewrite_tok(t: SpecTok) -> SpecTok
    decreases t, 0int,
{
    match t {
        SpecTok::Group(d, inner) => SpecTok::Group(d, spec_rewrite_from(inner, 0)),
        SpecTok::Ident(s) => if s == "self"@ {
            SpecTok::Ident("self_"@)
        } else {
            t
        },
        _ => t,
    }
}

/// Whether no token from `i` on, at any depth, is the identifier `self`.
pub open spec fn free_of_self(s: Seq<SpecTok>, i: int) -> bool
    decreases s, s.len() - i,
{
    if i < 0 || i >= s.len() {
        true
    } else {
        tok_free_of_self(s[i]) && free_of_self(s, i + 1)
    }
}

/// Whether the token, at any depth, is not the identifier `self`.
pub open spec fn tok_free_of_self(t: SpecTok) -> bool
    decreases t, 0int,
{
    match t {
        SpecTok::Ident(s) => s != "self"@,
        SpecTok::Group(_, inner) => free_of_self(inner, 0),
        _ => true,
    }
}

proof fn lemma_free_of_self_cons(x: SpecTok, rest: Seq<SpecTok>, k: int)
    requires
        0 <= k,
    ensures
        free_of_self(seq![x] + rest, k + 1) == free_of_self(rest, k),
    decreases rest.len() - k,
{
    if k < rest.len() {
        assert((seq![x] + rest)[k + 1] == rest[k]);
        lemma_free_of_self_cons(x, rest, k + 1);
    }
}

/// A rewritten body holds no `self`, at any depth.
pub proof fn lemma_rewrite_is_free_of_self(s: Seq<SpecTok>, i: int)
    ensures
        free_of_self(spec_rewrite_from(s, i), 0),
    decreases s, s.len() - i,
{
    reveal_strlit("self");
    reveal_strlit("self_");
    if 0 <= i < s.len() {
        let self_tok = SpecTok::Ident("self_"@);
        assert("self_"@ != "self"@) by {
            assert("self_"@.len() != "self"@.len());
        }
        assert(tok_free_of_self(self_tok));
        if is_self_turbofish(s, i) {
            let j = spec_angle_close(s, i + 5, 1);
            lemma_angle_close_bounds(s, i + 5, 1);
            if j >= s.len() {
                assert(free_of_self(seq![self_tok], 1));
                assert(seq![self_tok][0] == self_tok);
            } else {
                let rest = spec_rewrite_from(s, j + 1);
                lemma_rewrite_is_free_of_self(s, j + 1);
                lemma_free_of_self_cons(self_tok, rest, 0);
                assert((seq![self_tok] + rest)[0] == self_tok);
            }
        } else {
            let x = spec_rewrite_tok(s[i]);
            let rest = spec_rewrite_from(s, i + 1);
            lemma_rewrite_tok_is_free_of_self(s[i]);
            lemma_rewrite_is_free_of_self(s, i + 1);
            lemma_free_of_self_cons(x, rest, 0);
            assert((seq![x] + rest)[0] == x);
        }
    }
}

/// A rewritten token holds no `self`, at any depth.
pub proof fn lemma_rewrite_tok_is_free_of_self(t: SpecTok)
    ensures
        tok_free_of_self(spec_rewrite_tok(t)),
    decreases t, 0int,
{
    reveal_strlit("self");
    reveal_strlit("self_");
    assert("self_"@ != "self"@) by {
        assert("self_"@.len() != "self"@.len());
    }
    match t {
        SpecTok::Group(d, inner) => {
            lemma_rewrite_is_free_of_self(inner, 0);
        },
        _ => {},
    }
}


fn is_ident_named(t: &Tok, name: &str) -> (r: bool)
    ensures
        r == is_ident_tok(t@, name@),
{
    match t {
        Tok::Ident(s) => str_eq(s.as_str(), name),
        _ => false,
    }
}

fn is_punct_char(t: &Tok, c: char) -> (r: bool)
    ensures
        r == is_punct_tok(t@, c),
{
    match t {
        Tok::Punct(p, _) => *p == c,
        _ => false,
    }
}

fn angle_close(items: &Vec<Tok>, start: usize) -> (r: usize)
    requires
        1 <= start <= items@.len(),
    ensures
        r == spec_angle_close(toks_view(items@), start as int, 1),
{
    let ghost sv = toks_view(items@);
    let mut end = start;
    let mut depth: usize = 1;
    while end < items.len()
        invariant
            1 <= start <= end <= items@.len(),
            1 <= depth <= end - start + 1,
            sv == toks_view(items@),
            spec_angle_close(sv, end as int, depth as int) == spec_angle_close(sv, start as int, 1),
        decreases items@.len() - end,
    {
        assert(sv[end as int] == items@[end as int]@);
        if is_punct_char(&items[end], '<') {
            depth = depth + 1;
        } else if is_punct_char(&items[end], '>') {
            if depth - 1 == 0 {
                return end;
            }
            depth = depth - 1;
        }
        end = end + 1;
    }
    items.len()
}

/// Rewrites the tokens of a provided method body for use in a free function
/// whose receiver parameter is `self_`: `self::<...>` (through its closing
/// `>`) and every other `self` become `self_`, inside groups as well.
pub fn rewrite_method_body_tokens(tokens: &Vec<Tok>) -> (r: Vec<Tok>)
    ensures
        toks_view(r@) == spec_rewrite_from(toks_view(tokens@), 0),
    decreases tokens,
{
    let ghost sv = toks_view(tokens@);
    let mut out: Vec<Tok> = Vec::new();
    let mut idx: usize = 0;
    assert(toks_view(out@) + spec_rewrite_from(sv, 0) =~= spec_rewrite_from(sv, 0));
    while idx < tokens.len()
        invariant
            idx <= tokens@.len(),
            sv == toks_view(tokens@),
            toks_view(out@) + spec_rewrite_from(sv, idx as int) == spec_rewrite_from(sv, 0),
        decreases tokens@.len() - idx,
    {
        let ghost before = toks_view(out@);
        proof {
            assert forall|k: int| 0 <= k < sv.len() implies sv[k] == #[trigger] tokens@[k]@ by {}
        }
        let turbofish = tokens.len() - idx > 4 && is_ident_named(&tokens[idx], "self")
            && is_punct_char(&tokens[idx + 1], ':') && is_punct_char(&tokens[idx + 2], ':')
            && is_punct_char(&tokens[idx + 3], '<') && match &tokens[idx + 4] {
            Tok::Ident(_) => true,
            _ => false,
        };
        if turbofish {
            assert(is_self_turbofish(sv, idx as int));
            let end = angle_close(tokens, idx + 5);
            proof {
                lemma_angle_close_bounds(sv, idx + 5, 1);
            }
            let t = Tok::Ident(String::from_str("self_"));
            out.push(t);
            assert(toks_view(out@) =~= before.push(SpecTok::Ident("self_"@)));
            if end >= tokens.len() {
                idx = tokens.len();
                assert(toks_view(out@) + spec_rewrite_from(sv, idx as int) =~= spec_rewrite_from(
                    sv,
                    0,
                ));
            } else {
                idx = end + 1;
                assert(toks_view(out@) + spec_rewrite_from(sv, idx as int) =~= spec_rewrite_from(
                    sv,
                    0,
                ));
            }
        } else {
            assert(!is_self_turbofish(sv, idx as int));
            let t = match &tokens[idx] {
                Tok::Group(d, inner) => {
                    proof {
                        assert(decreases_to!(*tokens => tokens@));
                        assert(decreases_to!(tokens@ => tokens@[idx as int]));
                        assert(decreases_to!(tokens@[idx as int] => tokens@[idx as int]->Group_1));
                    }
                    Tok::Group(*d, rewrite_method_body_tokens(inner))
                },
                Tok::Ident(name) => if str_eq(name.as_str(), "self") {
                    Tok::Ident(String::from_str("self_"))
                } else {
                    Tok::Ident(name.clone())
                },
                Tok::Punct(c, j) => Tok::Punct(*c, *j),
                Tok::Literal(text) => Tok::Literal(text.clone()),
            };
            assert(t@ == spec_rewrite_tok(sv[idx as int]));
            out.push(t);
            assert(toks_view(out@) =~= before.push(t@));
            idx = idx + 1;
            assert(toks_view(out@) + spec_rewrite_from(sv, idx as int) =~= spec_rewrite_from(sv, 0));
        }
    }
    assert(toks_view(out@) =~= toks_view(out@) + spec_rewrite_from(sv, idx as int));
    out
}

} // verus!

