//! Where the items of a declaration block end: a signature runs to its `;`
//! (a body is refused), and the items of an `impl` block are told apart
//! before each is parsed.
use vstd::prelude::*;
use crate::preprocess::{ident_is, punct_is, spec_is_fn_head, is_fn_head};
use crate::tokens::{Delimiter, SpecTok, Tok, toks_view};
use crate::text::str_eq;

verus! {

/// Why a declaration was refused, with the position of the token concerned.
#[derive(Debug, Clone, Copy, PartialEq, Eq, Structural)]
pub enum DeclError {
    /// A function in a declaration block has a body.
    BodyNotAllowed { at: usize },
    /// The tokens ran out before the `;` that ends the item.
    UnexpectedEnd { at: usize },
}

/// The message of an error.
pub open spec fn spec_decl_message(e: DeclError) -> Seq<char> {
    match e {
        DeclError::BodyNotAllowed { .. } => "fn bodies are not allowed in declarations"@,
        DeclError::UnexpectedEnd { .. } => "unexpected end of input, expected `;`"@,
    }
}

impl DeclError {
    /// The message of the error.
    pub fn message(&self) -> (s: String)
        ensures
            s@ == spec_decl_message(*self),
    {
        match self {
            DeclError::BodyNotAllowed { .. } => String::from_str("fn bodies are not allowed in declarations"),
            DeclError::UnexpectedEnd { .. } => String::from_str("unexpected end of input, expected `;`"),
        }
    }
}

/// Whether the token is a brace-delimited group.
pub open spec fn is_brace(t: SpecTok) -> bool {
    t matches SpecTok::Group(Delimiter::Brace, _)
}

/// The angle-bracket depth after the token `t`: a `<` opens one, a `>`
/// closes one where one is open.
pub open spec fn depth_after(t: SpecTok, depth: int) -> int {
    if punct_is(t, '<') {
        depth + 1
    } else if punct_is(t, '>') {
        if depth > 0 {
            depth - 1
        } else {
            0
        }
    } else {
        depth
    }
}

/// Where a signature that reaches position `i` at angle depth `depth` ends:
/// at the first `;`, or at a brace group outside angle brackets (a brace
/// group inside them, such as `Foo<{ N + 1 }>`, belongs to the signature);
/// the number of tokens where there is neither.
pub open spec fn spec_signature_end(t: Seq<SpecTok>, i: int, depth: int) -> int
    decreases t.len() - i,
{
    if i < 0 || i >= t.len() {
        t.len() as int
    } else if punct_is(t[i], ';') || (depth == 0 && is_brace(t[i])) {
        i
    } else {
        spec_signature_end(t, i + 1, depth_after(t[i], depth))
    }
}

/// The position of the `;` that ends a function declaration whose
/// signature starts at `i`: a body there is refused, and so is the end of
/// the tokens.
pub open spec fn spec_fn_decl_end(t: Seq<SpecTok>, i: int) -> Result<int, DeclError> {
    let e = spec_signature_end(t, i, 0);
    if e >= t.len() {
        Err(DeclError::UnexpectedEnd { at: t.len() as usize })
    } else if is_brace(t[e]) {
        Err(DeclError::BodyNotAllowed { at: e as usize })
    } else {
        Ok(e)
    }
}

proof fn lemma_signature_end_in(t: Seq<SpecTok>, i: int, depth: int)
    requires
        0 <= i,
    ensures
        i <= spec_signature_end(t, i, depth) <= t.len() || (i > t.len() && spec_signature_end(t, i, depth)
            == t.len()),
        spec_signature_end(t, i, depth) < t.len() ==> punct_is(t[spec_signature_end(t, i, depth)], ';') || is_brace(
            t[spec_signature_end(t, i, depth)],
        ),
    decreases t.len() - i,
{
    if i < t.len() && !(punct_is(t[i], ';') || (depth == 0 && is_brace(t[i]))) {
        lemma_signature_end_in(t, i + 1, depth_after(t[i], depth));
    }
}

/// Where a signature starting at `start` ends: at its `;`, at a brace group
/// outside angle brackets, or at the end of the tokens.
pub fn signature_end(toks: &Vec<Tok>, start: usize) -> (r: usize)
    ensures
        r == spec_signature_end(toks_view(toks@), start as int, 0),
{
    let ghost tv = toks_view(toks@);
    let mut i: usize = start;
    let mut depth: usize = 0;
    while i < toks.len()
        invariant
            tv == toks_view(toks@),
            start <= i,
            depth <= i,
            spec_signature_end(tv, start as int, 0) == spec_signature_end(tv, i as int, depth as int),
        decreases toks@.len() - i,
    {
        assert(tv[i as int] == toks@[i as int]@);
        let (semi, brace, lt, gt) = match &toks[i] {
            Tok::Punct(c, _) => (*c == ';', false, *c == '<', *c == '>'),
            Tok::Group(Delimiter::Brace, _) => (false, true, false, false),
            _ => (false, false, false, false),
        };
        if semi || (depth == 0 && brace) {
            return i;
        }
        if lt {
            depth = depth + 1;
        } else if gt {
            if depth > 0 {
                depth = depth - 1;
            }
        }
        i = i + 1;
    }
    toks.len()
}

/// The position of the `;` that ends a function declaration whose
/// signature starts at `start`; a body there, or the end of the tokens
/// before a `;`, is refused.
pub fn fn_decl_end(toks: &Vec<Tok>, start: usize) -> (r: Result<usize, DeclError>)
    ensures
        match r {
            Ok(e) => spec_fn_decl_end(toks_view(toks@), start as int) == Ok::<int, DeclError>(e as int),
            Err(err) => spec_fn_decl_end(toks_view(toks@), start as int) == Err::<int, DeclError>(err),
        },
{
    let ghost tv = toks_view(toks@);
    let e = signature_end(toks, start);
    proof {
        lemma_signature_end_in(tv, start as int, 0);
    }
    if e >= toks.len() {
        return Err(DeclError::UnexpectedEnd { at: toks.len() });
    }
    assert(tv[e as int] == toks@[e as int]@);
    match &toks[e] {
        Tok::Group(Delimiter::Brace, _) => Err(DeclError::BodyNotAllowed { at: e }),
        _ => Ok(e),
    }
}

// ---------------------------------------------------------------------------
// The items of an `impl` block.

/// What an item of an `impl` declaration block is: a `raw` function, an
/// associated type, an associated constant, or a function.
#[derive(Debug, Clone, Copy, PartialEq, Eq, Structural)]
pub enum ImplItemKind {
    RawFn,
    Type,
    Const,
    Fn,
}

/// An item of an `impl` declaration block, by positions: its attributes
/// start at `start`, what follows its visibility (and `raw`) at `head`, and
/// it ends with the `;` at `end`.
#[derive(Debug, Clone, Copy, PartialEq, Eq, Structural)]
pub struct ImplItemSpan {
    pub start: usize,
    pub head: usize,
    pub kind: ImplItemKind,
    pub end: usize,
}

/// The position after the outer attributes (`#` and a bracketed group, any
/// number of times) from `i` on.
pub open spec fn skip_attrs(t: Seq<SpecTok>, i: int) -> int
    decreases t.len() - i,
{
    if 0 <= i && i + 1 < t.len() && punct_is(t[i], '#') && t[i + 1] matches SpecTok::Group(
        Delimiter::Bracket,
        _,
    ) {
        skip_attrs(t, i + 2)
    } else {
        i
    }
}

/// Whether the group restricts a visibility: `(crate)`, `(self)`,
/// `(super)` or `(in path)`.
pub open spec fn is_restriction(g: SpecTok) -> bool {
    match g {
        SpecTok::Group(Delimiter::Parenthesis, inner) => inner.len() > 0 && (ident_is(inner[0], "in"@) || (
        inner.len() == 1 && (ident_is(inner[0], "crate"@) || ident_is(inner[0], "self"@) || ident_is(
            inner[0],
            "super"@,
        )))),
        _ => false,
    }
}

/// The position after a visibility at `i`: `pub`, with its restriction
/// where one follows.
pub open spec fn skip_vis(t: Seq<SpecTok>, i: int) -> int {
    if 0 <= i < t.len() && ident_is(t[i], "pub"@) {
        if i + 1 < t.len() && is_restriction(t[i + 1]) {
            i + 2
        } else {
            i + 1
        }
    } else {
        i
    }
}

/// The position of the first `;` from `i` on, or the number of tokens.
pub open spec fn first_semi(t: Seq<SpecTok>, i: int) -> int
    decreases t.len() - i,
{
    if i < 0 || i >= t.len() {
        t.len() as int
    } else if punct_is(t[i], ';') {
        i
    } else {
        first_semi(t, i + 1)
    }
}

/// The position after the `;` tokens from `i` on.
pub open spec fn skip_semis(t: Seq<SpecTok>, i: int) -> int
    decreases t.len() - i,
{
    if 0 <= i < t.len() && punct_is(t[i], ';') {
        skip_semis(t, i + 1)
    } else {
        i
    }
}

/// The item that starts at `s` (after any stray `;`): its kind, where its
/// head is, and where it ends, or why it is refused. An item headed `raw`
/// is a function; `type`, and `const` not beginning a function, run to the
/// next `;`; anything else is a function declaration.
pub open spec fn spec_impl_item(t: Seq<SpecTok>, s: int) -> Result<ImplItemSpan, DeclError> {
    let h = skip_vis(t, skip_attrs(t, s));
    if 0 <= h < t.len() && ident_is(t[h], "raw"@) {
        match spec_fn_decl_end(t, h + 1) {
            Ok(e) => Ok(ImplItemSpan { start: s as usize, head: (h + 1) as usize, kind: ImplItemKind::RawFn, end: e as usize }),
            Err(err) => Err(err),
        }
    } else if (0 <= h < t.len() && ident_is(t[h], "type"@)) || (0 <= h < t.len() && ident_is(t[h], "const"@)
        && !spec_is_fn_head(t, h)) {
        let e = first_semi(t, h);
        if e >= t.len() {
            Err(DeclError::UnexpectedEnd { at: t.len() as usize })
        } else {
            Ok(
                ImplItemSpan {
                    start: s as usize,
                    head: h as usize,
                    kind: if ident_is(t[h], "type"@) {
                        ImplItemKind::Type
                    } else {
                        ImplItemKind::Const
                    },
                    end: e as usize,
                },
            )
        }
    } else {
        match spec_fn_decl_end(t, h) {
            Ok(e) => Ok(ImplItemSpan { start: s as usize, head: h as usize, kind: ImplItemKind::Fn, end: e as usize }),
            Err(err) => Err(err),
        }
    }
}

/// The items of an `impl` block's body from position `i` on, in order, or
/// the first refusal.
pub open spec fn spec_impl_items_from(t: Seq<SpecTok>, i: int) -> Result<Seq<ImplItemSpan>, DeclError>
    decreases t.len() - i,
{
    let s = skip_semis(t, i);
    if i < 0 || s >= t.len() {
        Ok(Seq::empty())
    } else {
        match spec_impl_item(t, s) {
            Err(err) => Err(err),
            Ok(item) => if i < item.end + 1 <= t.len() {
                match spec_impl_items_from(t, item.end + 1) {
                    Ok(rest) => Ok(seq![item] + rest),
                    Err(err) => Err(err),
                }
            } else {
                Ok(seq![item])
            },
        }
    }
}

fn skip_attrs_exec(toks: &Vec<Tok>, i: usize) -> (r: usize)
    ensures
        r == skip_attrs(toks_view(toks@), i as int),
        i <= r,
{
    let ghost tv = toks_view(toks@);
    let mut j = i;
    while j < toks.len() && j + 1 < toks.len()
        invariant
            tv == toks_view(toks@),
            i <= j,
            skip_attrs(tv, i as int) == skip_attrs(tv, j as int),
        decreases toks@.len() - j,
    {
        assert(tv[j as int] == toks@[j as int]@);
        assert(tv[j + 1] == toks@[j + 1]@);
        let hash = match &toks[j] {
            Tok::Punct(c, _) => *c == '#',
            _ => false,
        };
        let bracket = match &toks[j + 1] {
            Tok::Group(Delimiter::Bracket, _) => true,
            _ => false,
        };
        if !(hash && bracket) {
            return j;
        }
        j = j + 2;
    }
    j
}

fn ident_at(toks: &Vec<Tok>, i: usize, name: &str) -> (r: bool)
    ensures
        r == (i < toks@.len() && ident_is(toks_view(toks@)[i as int], name@)),
{
    if i >= toks.len() {
        return false;
    }
    assert(toks_view(toks@)[i as int] == toks@[i as int]@);
    match &toks[i] {
        Tok::Ident(x) => str_eq(x.as_str(), name),
        _ => false,
    }
}

fn is_restriction_exec(t: &Tok) -> (r: bool)
    ensures
        r == is_restriction(t@),
{
    match t {
        Tok::Group(Delimiter::Parenthesis, inner) => {
            if inner.len() == 0 {
                return false;
            }
            if ident_at(inner, 0, "in") {
                return true;
            }
            inner.len() == 1 && (ident_at(inner, 0, "crate") || ident_at(inner, 0, "self") || ident_at(
                inner,
                0,
                "super",
            ))
        },
        _ => false,
    }
}

fn skip_vis_exec(toks: &Vec<Tok>, i: usize) -> (r: usize)
    ensures
        r == skip_vis(toks_view(toks@), i as int),
        i <= r <= i + 2,
{
    if ident_at(toks, i, "pub") {
        assert(i < toks.len());
        if i + 1 < toks.len() {
            assert(toks_view(toks@)[i + 1] == toks@[i + 1]@);
            if is_restriction_exec(&toks[i + 1]) {
                return i + 2;
            }
        }
        i + 1
    } else {
        i
    }
}

fn first_semi_exec(toks: &Vec<Tok>, i: usize) -> (r: usize)
    ensures
        r == first_semi(toks_view(toks@), i as int),
{
    let ghost tv = toks_view(toks@);
    let mut j = i;
    while j < toks.len()
        invariant
            tv == toks_view(toks@),
            i <= j,
            first_semi(tv, i as int) == first_semi(tv, j as int),
        decreases toks@.len() - j,
    {
        assert(tv[j as int] == toks@[j as int]@);
        if let Tok::Punct(';', _) = &toks[j] {
            return j;
        }
        j = j + 1;
    }
    toks.len()
}

fn skip_semis_exec(toks: &Vec<Tok>, i: usize) -> (r: usize)
    ensures
        r == skip_semis(toks_view(toks@), i as int),
        i <= r,
{
    let ghost tv = toks_view(toks@);
    let mut j = i;
    while j < toks.len()
        invariant
            tv == toks_view(toks@),
            i <= j,
            skip_semis(tv, i as int) == skip_semis(tv, j as int),
        decreases toks@.len() - j,
    {
        assert(tv[j as int] == toks@[j as int]@);
        if let Tok::Punct(';', _) = &toks[j] {
            j = j + 1;
        } else {
            return j;
        }
    }
    j
}

/// Where the head of an item starting at `start` is: after its outer
/// attributes and its visibility.
pub fn item_head(toks: &Vec<Tok>, start: usize) -> (r: usize)
    ensures
        r == skip_vis(toks_view(toks@), skip_attrs(toks_view(toks@), start as int)),
        start <= r,
{
    let a = skip_attrs_exec(toks, start);
    skip_vis_exec(toks, a)
}

/// The item of an `impl` block's body that starts at `s`.
fn impl_item(toks: &Vec<Tok>, s: usize) -> (r: Result<ImplItemSpan, DeclError>)
    requires
        s < toks@.len(),
    ensures
        r == spec_impl_item(toks_view(toks@), s as int),
{
    let a = skip_attrs_exec(toks, s);
    let h = skip_vis_exec(toks, a);
    if ident_at(toks, h, "raw") {
        assert(h < toks.len());
        return match fn_decl_end(toks, h + 1) {
            Ok(e) => Ok(ImplItemSpan { start: s, head: h + 1, kind: ImplItemKind::RawFn, end: e }),
            Err(err) => Err(err),
        };
    }
    let is_type = ident_at(toks, h, "type");
    let is_const = h <= toks.len() && ident_at(toks, h, "const") && !is_fn_head(toks, h);
    if is_type || is_const {
        let e = first_semi_exec(toks, h);
        if e >= toks.len() {
            return Err(DeclError::UnexpectedEnd { at: toks.len() });
        }
        let kind = if is_type {
            ImplItemKind::Type
        } else {
            ImplItemKind::Const
        };
        return Ok(ImplItemSpan { start: s, head: h, kind, end: e });
    }
    match fn_decl_end(toks, h) {
        Ok(e) => Ok(ImplItemSpan { start: s, head: h, kind: ImplItemKind::Fn, end: e }),
        Err(err) => Err(err),
    }
}

/// The items of an `impl` declaration block's body, in order: each by the
/// positions of its attributes, its head and its closing `;`, and its kind
/// (a `raw` function, an associated type or constant, or a function); stray
/// `;` between items are skipped. The first item with a body, or that runs
/// out of tokens before its `;`, is refused.
pub fn impl_item_spans(toks: &Vec<Tok>) -> (r: Result<Vec<ImplItemSpan>, DeclError>)
    ensures
        match r {
            Ok(v) => spec_impl_items_from(toks_view(toks@), 0) == Ok::<Seq<ImplItemSpan>, DeclError>(v@),
            Err(e) => spec_impl_items_from(toks_view(toks@), 0) == Err::<Seq<ImplItemSpan>, DeclError>(e),
        },
{
    let ghost tv = toks_view(toks@);
    let mut out: Vec<ImplItemSpan> = Vec::new();
    let mut i: usize = 0;
    loop
        invariant
            tv == toks_view(toks@),
            i <= toks@.len(),
            spec_impl_items_from(tv, 0) == (match spec_impl_items_from(tv, i as int) {
                Ok(rest) => Ok(out@ + rest),
                Err(e) => Err(e),
            }),
        decreases toks@.len() - i,
    {
        let s = skip_semis_exec(toks, i);
        if s >= toks.len() {
            assert(out@ + Seq::<ImplItemSpan>::empty() =~= out@);
            return Ok(out);
        }
        let item = match impl_item(toks, s) {
            Err(e) => {
                return Err(e);
            },
            Ok(item) => item,
        };
        proof {
            lemma_skip_attrs_after(tv, s as int);
            let h = skip_vis(tv, skip_attrs(tv, s as int));
            if 0 <= h < tv.len() && ident_is(tv[h], "raw"@) {
                lemma_signature_end_in(tv, h + 1, 0);
            } else if !((0 <= h < tv.len() && ident_is(tv[h], "type"@)) || (0 <= h < tv.len() && ident_is(
                tv[h],
                "const"@,
            ) && !spec_is_fn_head(tv, h))) {
                lemma_signature_end_in(tv, h, 0);
            } else {
                lemma_first_semi_in(tv, h);
            }
        }
        assert(s <= item.end < toks.len());
        let ghost before = out@;
        out.push(item);
        proof {
            let rest = spec_impl_items_from(tv, item.end + 1);
            match rest {
                Ok(rv) => {
                    assert(before + (seq![item] + rv) =~= out@ + rv);
                },
                Err(_) => {},
            }
        }
        i = item.end + 1;
    }
}

proof fn lemma_skip_attrs_after(t: Seq<SpecTok>, i: int)
    requires
        0 <= i,
    ensures
        i <= skip_attrs(t, i),
    decreases t.len() - i,
{
    if i + 1 < t.len() && punct_is(t[i], '#') && t[i + 1] matches SpecTok::Group(Delimiter::Bracket, _) {
        lemma_skip_attrs_after(t, i + 2);
    }
}

proof fn lemma_first_semi_in(t: Seq<SpecTok>, i: int)
    requires
        0 <= i,
    ensures
        i <= first_semi(t, i) <= t.len() || (i > t.len() && first_semi(t, i) == t.len()),
    decreases t.len() - i,
{
    if i < t.len() && !punct_is(t[i], ';') {
        lemma_first_semi_in(t, i + 1);
    }
}

} // verus!
